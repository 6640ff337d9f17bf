use dcf77_receiver::cycle_clock::CycleClock;
use dcf77_receiver::dcf77_decoder::{classify_pulse, DCF77Decoder, DecoderError};
use dcf77_receiver::frame::DateTime;
use dcf77_receiver::second_sync::SyncState;

/// The bits of 2023-06-15 14:37, a Thursday, in summer time.
const REFERENCE: &str = "00000000000000000100111101101001010010101000101100110001001";

/// The bits of the minute after it, 14:38.
const NEXT_MINUTE: &str = "00000000000000000100100011101001010010101000101100110001001";

fn bits_of(text: &str) -> Vec<bool> {
    text.chars().map(|c| c == '1').collect()
}

/// A decoder on a clock of one cycle per millisecond, and the time of the
/// next second start.
struct Line {
    decoder: DCF77Decoder,
    second: u32,
}

impl Line {
    fn new(start: u32) -> Line {
        let mut line = Line { decoder: DCF77Decoder::new(CycleClock::new(1000)), second: start };
        // The clock takes the counter to have started at zero.
        assert_eq!(line.decoder.read_bit(true, start.wrapping_sub(1)), Ok(()));
        line
    }

    /// Sends the pulse of one second, `width` milliseconds long.
    fn pulse(&mut self, width: u32) {
        assert_eq!(self.decoder.register_transition(false, self.second), Ok(()));
        assert!(!self.decoder.current_level());
        assert_eq!(self.decoder.register_transition(true, self.second.wrapping_add(width)), Ok(()));
        assert!(self.decoder.current_level());
        self.second = self.second.wrapping_add(1000);
    }

    /// Lets one second go by without a pulse.
    fn silence(&mut self) {
        self.second = self.second.wrapping_add(1000);
    }

    fn bit(&mut self, bit: bool) {
        self.pulse(if bit { 200 } else { 100 });
    }

    fn minute(&mut self, text: &str) {
        for bit in bits_of(text) {
            self.bit(bit);
        }
        self.silence();
    }

    /// Sends pulses until the synchroniser has locked.
    fn lock(&mut self) {
        for _ in 0..7 {
            self.pulse(100);
        }
        assert!(matches!(self.decoder.sync_state(), SyncState::Validated { .. }));
    }
}

#[test]
fn pulse_width_boundaries() {
    assert_eq!(classify_pulse(0), Some(false));
    assert_eq!(classify_pulse(100), Some(false));
    assert_eq!(classify_pulse(149), Some(false));
    assert_eq!(classify_pulse(150), Some(true));
    assert_eq!(classify_pulse(200), Some(true));
    assert_eq!(classify_pulse(250), Some(true));
    assert_eq!(classify_pulse(251), None);
    assert_eq!(classify_pulse(u32::MAX), None);
}

#[test]
fn new_decoder_sees_a_high_line() {
    let decoder = DCF77Decoder::new(CycleClock::new(168_000_000));
    assert!(decoder.current_level());
    assert!(decoder.last_bits().is_none());
    assert_eq!(decoder.sync_state(), SyncState::Unsynchronized);
}

#[test]
fn first_edge_may_rise() {
    let mut decoder = DCF77Decoder::new(CycleClock::new(1000));
    assert_eq!(decoder.register_transition(true, 0), Ok(()));
    assert!(decoder.current_level());
    assert_eq!(decoder.sync_state(), SyncState::Unsynchronized);
    assert_eq!(decoder.register_transition(false, 20), Ok(()));
    assert!(!decoder.current_level());
}

#[test]
fn first_edge_may_fall() {
    let mut decoder = DCF77Decoder::new(CycleClock::new(1000));
    assert_eq!(decoder.register_transition(false, 0), Ok(()));
    assert!(!decoder.current_level());
    assert_eq!(decoder.register_transition(true, 100), Ok(()));
    assert!(decoder.current_level());
}

#[test]
fn edges_must_alternate() {
    let mut decoder = DCF77Decoder::new(CycleClock::new(1000));
    assert_eq!(decoder.register_transition(true, 10), Ok(()));
    assert_eq!(decoder.register_transition(true, 15), Err(DecoderError::WrongTransition));
    assert!(decoder.current_level());
    assert_eq!(decoder.register_transition(false, 20), Ok(()));
    assert!(!decoder.current_level());
    assert_eq!(decoder.register_transition(false, 30), Err(DecoderError::WrongTransition));
    assert!(!decoder.current_level());
    assert_eq!(decoder.register_transition(true, 40), Ok(()));
    assert!(decoder.current_level());
}

#[test]
fn decoding_starts_with_a_rising_edge_too() {
    let mut decoder = DCF77Decoder::new(CycleClock::new(1000));
    assert_eq!(decoder.register_transition(true, 900), Ok(()));
    let mut line = Line { decoder, second: 1000 };
    line.lock();
    line.silence();
    line.minute(REFERENCE);
    line.bit(false);
    assert_eq!(line.decoder.last_bits().unwrap().bits.to_vec(), bits_of(REFERENCE));
}

#[test]
fn wrong_transition_gives_the_lock_up() {
    let mut line = Line::new(1000);
    line.lock();
    let t = line.second;
    assert_eq!(line.decoder.register_transition(true, t), Err(DecoderError::WrongTransition));
    assert_eq!(line.decoder.sync_state(), SyncState::Unsynchronized);
}

#[test]
fn minute_marker_completes_the_frame_exactly_once() {
    let mut line = Line::new(1000);
    line.lock();
    line.silence();
    for bit in bits_of(REFERENCE) {
        assert!(line.decoder.last_bits().is_none());
        line.bit(bit);
    }
    assert!(line.decoder.last_bits().is_none());
    line.silence();
    let marker = line.second;
    line.bit(false);
    let frame = line.decoder.last_bits().unwrap();
    assert_eq!(frame.bits.to_vec(), bits_of(REFERENCE));
    assert_eq!(frame.marker_at, marker);
    let expected = DateTime {
        year: 2023,
        month: 6,
        day: 15,
        weekday: 4,
        hour: 14,
        minute: 37,
        summer_time: true,
    };
    assert_eq!(frame.decode(), Ok(expected));
    line.decoder.reset_last_bits();
    assert!(line.decoder.last_bits().is_none());
    // The bit index started over: only a whole further minute gives a frame.
    for bit in bits_of(NEXT_MINUTE).into_iter().skip(1) {
        line.bit(bit);
        assert!(line.decoder.last_bits().is_none());
    }
    line.silence();
    line.bit(false);
    let next = line.decoder.last_bits().unwrap();
    assert_eq!(next.bits.to_vec(), bits_of(NEXT_MINUTE));
    assert_eq!(next.marker_at, marker + 60_000);
    assert_eq!(next.decode().unwrap().minute, 38);
}

#[test]
fn frame_stays_on_offer_until_it_is_reset() {
    let mut line = Line::new(500);
    line.lock();
    line.silence();
    line.minute(REFERENCE);
    line.bit(false);
    assert!(line.decoder.last_bits().is_some());
    for _ in 0..10 {
        line.bit(true);
    }
    assert_eq!(line.decoder.last_bits().unwrap().bits.to_vec(), bits_of(REFERENCE));
}

#[test]
fn no_frame_before_the_first_marker() {
    let mut line = Line::new(1000);
    line.lock();
    for _ in 0..70 {
        line.pulse(100);
    }
    assert!(line.decoder.last_bits().is_none());
}

#[test]
fn boundary_widths_inside_a_minute() {
    let mut line = Line::new(1000);
    line.lock();
    line.silence();
    let bits = bits_of(REFERENCE);
    for (i, bit) in bits.iter().enumerate() {
        let width = match (*bit, i % 2) {
            (false, 0) => 149,
            (false, _) => 0,
            (true, 0) => 150,
            (true, _) => 250,
        };
        line.pulse(width);
    }
    line.silence();
    line.bit(false);
    assert_eq!(line.decoder.last_bits().unwrap().bits.to_vec(), bits);
}

#[test]
fn too_long_a_pulse_discards_the_frame() {
    let mut line = Line::new(1000);
    line.lock();
    line.silence();
    let bits = bits_of(REFERENCE);
    for (i, bit) in bits.iter().enumerate() {
        if i == 30 {
            line.pulse(251);
        } else {
            line.bit(*bit);
        }
    }
    line.silence();
    line.bit(false);
    assert!(line.decoder.last_bits().is_none());
    // The minute that starts at this marker is decoded again.
    for bit in bits_of(NEXT_MINUTE).into_iter().skip(1) {
        line.bit(bit);
    }
    line.silence();
    line.bit(false);
    assert_eq!(line.decoder.last_bits().unwrap().bits.to_vec(), bits_of(NEXT_MINUTE));
}

#[test]
fn missing_pulse_inside_the_minute_discards_the_frame() {
    let mut line = Line::new(1000);
    line.lock();
    line.silence();
    let bits = bits_of(REFERENCE);
    for (i, bit) in bits.iter().enumerate() {
        if i == 12 {
            line.silence();
        } else {
            line.bit(*bit);
        }
    }
    line.silence();
    line.bit(false);
    assert!(line.decoder.last_bits().is_none());
}

#[test]
fn pulse_in_place_of_the_marker_discards_the_frame() {
    let mut line = Line::new(1000);
    line.lock();
    line.silence();
    for bit in bits_of(REFERENCE) {
        line.bit(bit);
    }
    line.bit(false);
    line.silence();
    line.bit(false);
    assert!(line.decoder.last_bits().is_none());
}

#[test]
fn two_silent_seconds_discard_the_frame() {
    let mut line = Line::new(1000);
    line.lock();
    line.silence();
    let bits = bits_of(REFERENCE);
    for bit in bits.iter().take(58) {
        line.bit(*bit);
    }
    line.silence();
    line.silence();
    line.bit(bits[58]);
    line.silence();
    line.bit(false);
    assert!(line.decoder.last_bits().is_none());
}

#[test]
fn stray_pulses_between_the_seconds_are_ignored() {
    let mut line = Line::new(1000);
    line.lock();
    line.silence();
    for bit in bits_of(REFERENCE) {
        let second = line.second;
        line.bit(bit);
        assert_eq!(line.decoder.register_transition(false, second + 500), Ok(()));
        assert_eq!(line.decoder.register_transition(true, second + 530), Ok(()));
    }
    line.silence();
    line.bit(false);
    assert_eq!(line.decoder.last_bits().unwrap().bits.to_vec(), bits_of(REFERENCE));
}

#[test]
fn losing_the_lock_discards_the_frame() {
    let mut line = Line::new(1000);
    line.lock();
    line.silence();
    let bits = bits_of(REFERENCE);
    for bit in bits.iter().take(20) {
        line.bit(*bit);
    }
    // Eleven seconds of silence time the lock out.
    for _ in 0..11 {
        line.silence();
    }
    line.bit(false);
    assert_eq!(line.decoder.sync_state(), SyncState::Unsynchronized);
    line.lock();
    for bit in bits.iter().skip(39) {
        line.bit(*bit);
    }
    line.silence();
    line.bit(false);
    assert!(line.decoder.last_bits().is_none());
}

#[test]
fn decoding_across_the_wrap_of_the_millisecond_counter() {
    let mut line = Line::new(u32::MAX - 30_000);
    line.lock();
    line.silence();
    line.minute(REFERENCE);
    let marker = line.second;
    assert!(marker < 60_000);
    line.bit(false);
    let frame = line.decoder.last_bits().unwrap();
    assert_eq!(frame.bits.to_vec(), bits_of(REFERENCE));
    assert_eq!(frame.marker_at, marker);
}

/// Feeds the level of the line to `read_bit` every 10 ms, from `from` up to
/// but not including `to`.
fn sample(decoder: &mut DCF77Decoder, level: bool, from: u32, to: u32) {
    let mut t = from;
    while t < to {
        assert_eq!(decoder.read_bit(level, t), Ok(()));
        t += 10;
    }
}

fn sampled_pulse(decoder: &mut DCF77Decoder, second: u32, width: u32) {
    sample(decoder, false, second, second + width);
    // A glitch of three samples in the middle of the second.
    sample(decoder, true, second + width, second + 500);
    sample(decoder, false, second + 500, second + 530);
    sample(decoder, true, second + 530, second + 1000);
}

#[test]
fn sampled_line_is_debounced_and_decoded() {
    let mut decoder = DCF77Decoder::new(CycleClock::new(1000));
    let mut second = 0;
    for _ in 0..7 {
        sampled_pulse(&mut decoder, second, 100);
        second += 1000;
    }
    assert!(matches!(decoder.sync_state(), SyncState::Validated { .. }));
    sample(&mut decoder, true, second, second + 1000);
    second += 1000;
    for bit in bits_of(REFERENCE) {
        sampled_pulse(&mut decoder, second, if bit { 200 } else { 100 });
        second += 1000;
    }
    assert!(decoder.last_bits().is_none());
    sample(&mut decoder, true, second, second + 1000);
    second += 1000;
    sampled_pulse(&mut decoder, second, 100);
    let frame = decoder.last_bits().unwrap();
    assert_eq!(frame.bits.to_vec(), bits_of(REFERENCE));
    // The stable level follows the line eight samples late.
    assert_eq!(frame.marker_at, second + 70);
    assert_eq!(frame.decode().unwrap().hour, 14);
}

#[test]
fn sampled_level_is_mirrored_with_a_delay() {
    let mut decoder = DCF77Decoder::new(CycleClock::new(1000));
    for k in 0..7 {
        assert_eq!(decoder.read_bit(false, 10 * k), Ok(()));
        assert!(decoder.current_level());
    }
    assert_eq!(decoder.read_bit(false, 70), Ok(()));
    assert!(!decoder.current_level());
}

#[test]
fn sampling_times_the_lock_out_without_an_edge() {
    let mut decoder = DCF77Decoder::new(CycleClock::new(1000));
    let mut second = 0;
    for _ in 0..7 {
        sampled_pulse(&mut decoder, second, 100);
        second += 1000;
    }
    assert!(matches!(decoder.sync_state(), SyncState::Validated { .. }));
    sample(&mut decoder, true, second, second + 9_070);
    assert!(matches!(decoder.sync_state(), SyncState::Validated { .. }));
    sample(&mut decoder, true, second + 9_070, second + 9_090);
    assert_eq!(decoder.sync_state(), SyncState::Unsynchronized);
}

#[test]
fn cycles_are_converted_with_the_core_frequency() {
    // 168 cycles per microsecond: a second is 168 million cycles.
    let mut decoder = DCF77Decoder::new(CycleClock::new(168_000_000));
    let mut cycles: u32 = 0;
    let second: u32 = 168_000_000;
    let pulse: u32 = 16_800_000;
    for _ in 0..7 {
        assert_eq!(decoder.register_transition(false, cycles), Ok(()));
        assert_eq!(decoder.register_transition(true, cycles.wrapping_add(pulse)), Ok(()));
        cycles = cycles.wrapping_add(second);
    }
    assert_eq!(decoder.sync_state(), SyncState::Validated { phase: 0 });
    cycles = cycles.wrapping_add(second);
    for bit in bits_of(REFERENCE) {
        let width = if bit { 2 * pulse } else { pulse };
        assert_eq!(decoder.register_transition(false, cycles), Ok(()));
        assert_eq!(decoder.register_transition(true, cycles.wrapping_add(width)), Ok(()));
        cycles = cycles.wrapping_add(second);
    }
    cycles = cycles.wrapping_add(second);
    assert_eq!(decoder.register_transition(false, cycles), Ok(()));
    let frame = decoder.last_bits().unwrap();
    assert_eq!(frame.bits.to_vec(), bits_of(REFERENCE));
    assert_eq!(frame.marker_at, 68_000);
}
