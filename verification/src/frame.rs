//! The 59-bit minute frame and its decoding into a date and time.
//!
//! Bit `i` of a frame is the bit sent in second `i` of the minute. The time
//! information starts with bit 20, which is always set. Minute, hour and date
//! follow as binary-coded decimals, least significant bit first, each group
//! closed by an even-parity bit:
//!
//! | bits  | content                               |
//! |-------|---------------------------------------|
//! | 17    | summer time in effect                 |
//! | 20    | start of time information, always set |
//! | 21-27 | minute, 28 its parity                 |
//! | 29-34 | hour, 35 its parity                   |
//! | 36-41 | day of month                          |
//! | 42-44 | day of week, 1 for Monday to 7        |
//! | 45-49 | month                                 |
//! | 50-57 | year within the century               |
//! | 58    | parity of bits 36-57                  |

use vstd::prelude::*;
use crate::calendar::{calendar_date_exists, is_calendar_date};

verus! {

/// Number of bits of a frame.
pub const FRAME_BITS: usize = 59;

/// First year of the century that the two-digit year of a frame counts from.
pub const CENTURY: u16 = 2000;

/// A part of the time information. `Date` stands for the whole group of day,
/// day of week, month and year, which shares one parity bit.
#[derive(Clone, Copy, Debug, PartialEq, Eq, Structural)]
pub enum Field {
    Minute,
    Hour,
    Date,
    Day,
    Weekday,
    Month,
    Year,
}

/// Why a frame does not decode.
#[derive(Clone, Copy, Debug, PartialEq, Eq, Structural)]
pub enum DecodeError {
    /// The parity over the group of `field` is odd.
    ParityError { field: Field },
    /// `field` holds a digit or a number that it cannot have; `value` is the
    /// number as read, ten times the tens digit plus the units digit.
    InvalidField { field: Field, value: u8 },
    /// Bit 20 is not set.
    MissingStartBit,
}

/// A decoded date and time. `weekday` is 1 for Monday to 7 for Sunday;
/// `summer_time` tells whether the time is Central European Summer Time
/// rather than Central European Time.
#[derive(Clone, Copy, Debug, PartialEq, Eq, Structural)]
pub struct DateTime {
    pub year: u16,
    pub month: u8,
    pub day: u8,
    pub weekday: u8,
    pub hour: u8,
    pub minute: u8,
    pub summer_time: bool,
}

/// A completed frame: the bits of seconds 0 to 58, and the instant at which
/// the minute marker that closed it was observed.
#[derive(Clone, Copy, Debug)]
pub struct Frame {
    pub bits: [bool; FRAME_BITS],
    pub marker_at: u32,
}

/// One or zero, as bit `i` is set or not.
pub open spec fn bit_value(bits: Seq<bool>, i: int) -> nat {
    if bits[i] {
        1
    } else {
        0
    }
}

/// Number of set bits among the bits `from` to `to - 1`.
pub open spec fn ones(bits: Seq<bool>, from: int, to: int) -> nat
    decreases to - from,
{
    if to <= from {
        0
    } else {
        ones(bits, from, to - 1) + bit_value(bits, to - 1)
    }
}

/// The bits `from` to `to - 1`, parity bit included, hold an even number of
/// set bits.
pub open spec fn even_parity(bits: Seq<bool>, from: int, to: int) -> bool {
    ones(bits, from, to) % 2 == 0
}

/// The binary number held by the `len` bits from `from` on, least significant
/// bit first.
pub open spec fn number(bits: Seq<bool>, from: int, len: int) -> nat
    decreases len,
{
    if len <= 0 {
        0
    } else {
        bit_value(bits, from) + 2 * number(bits, from + 1, len - 1)
    }
}

/// The units digit of the decimal that starts at bit `from`.
pub open spec fn units(bits: Seq<bool>, from: int) -> nat {
    number(bits, from, 4)
}

/// The tens digit, `tens_bits` wide, of the decimal that starts at bit `from`.
pub open spec fn tens(bits: Seq<bool>, from: int, tens_bits: int) -> nat {
    number(bits, from + 4, tens_bits)
}

/// The decimal that starts at bit `from`: ten times its tens digit plus its
/// units digit.
pub open spec fn decimal(bits: Seq<bool>, from: int, tens_bits: int) -> nat {
    10 * tens(bits, from, tens_bits) + units(bits, from)
}

pub open spec fn minute_of(bits: Seq<bool>) -> nat {
    decimal(bits, 21, 3)
}

pub open spec fn hour_of(bits: Seq<bool>) -> nat {
    decimal(bits, 29, 2)
}

pub open spec fn day_of(bits: Seq<bool>) -> nat {
    decimal(bits, 36, 2)
}

pub open spec fn weekday_of(bits: Seq<bool>) -> nat {
    number(bits, 42, 3)
}

pub open spec fn month_of(bits: Seq<bool>) -> nat {
    decimal(bits, 45, 1)
}

pub open spec fn year_of(bits: Seq<bool>) -> nat {
    decimal(bits, 50, 4)
}

/// The units digit is a decimal digit and the tens digit is at most five.
pub open spec fn minute_valid(bits: Seq<bool>) -> bool {
    units(bits, 21) <= 9 && tens(bits, 21, 3) <= 5
}

/// The units digit is a decimal digit and the hour is at most 23.
pub open spec fn hour_valid(bits: Seq<bool>) -> bool {
    units(bits, 29) <= 9 && hour_of(bits) <= 23
}

/// The units digit is a decimal digit and the day is between 1 and 31.
pub open spec fn day_valid(bits: Seq<bool>) -> bool {
    units(bits, 36) <= 9 && 1 <= day_of(bits) <= 31
}

/// The day of the week is between 1 and 7.
pub open spec fn weekday_valid(bits: Seq<bool>) -> bool {
    1 <= weekday_of(bits) <= 7
}

/// The units digit is a decimal digit and the month is between 1 and 12.
pub open spec fn month_valid(bits: Seq<bool>) -> bool {
    units(bits, 45) <= 9 && 1 <= month_of(bits) <= 12
}

/// Both digits of the year are decimal digits.
pub open spec fn year_valid(bits: Seq<bool>) -> bool {
    units(bits, 50) <= 9 && tens(bits, 50, 4) <= 9
}

/// The first field, in the order minute, hour, day, day of week, month, year,
/// that holds a digit or a number it cannot have, with the number as read. A
/// day that the month of that year does not have counts last, as an invalid
/// day.
pub open spec fn first_invalid_field(bits: Seq<bool>) -> Option<(Field, nat)> {
    if !minute_valid(bits) {
        Some((Field::Minute, minute_of(bits)))
    } else if !hour_valid(bits) {
        Some((Field::Hour, hour_of(bits)))
    } else if !day_valid(bits) {
        Some((Field::Day, day_of(bits)))
    } else if !weekday_valid(bits) {
        Some((Field::Weekday, weekday_of(bits)))
    } else if !month_valid(bits) {
        Some((Field::Month, month_of(bits)))
    } else if !year_valid(bits) {
        Some((Field::Year, year_of(bits)))
    } else if !is_calendar_date(CENTURY + year_of(bits), month_of(bits) as int, day_of(bits) as int) {
        Some((Field::Day, day_of(bits)))
    } else {
        None
    }
}

/// What a frame with the bits `bits` decodes to.
///
/// The checks come in this order: the start bit; the parity of the minute, of
/// the hour and of the date; then the fields themselves.
pub open spec fn decoded(bits: Seq<bool>) -> Result<DateTime, DecodeError> {
    if !bits[20] {
        Err(DecodeError::MissingStartBit)
    } else if !even_parity(bits, 21, 29) {
        Err(DecodeError::ParityError { field: Field::Minute })
    } else if !even_parity(bits, 29, 36) {
        Err(DecodeError::ParityError { field: Field::Hour })
    } else if !even_parity(bits, 36, 59) {
        Err(DecodeError::ParityError { field: Field::Date })
    } else {
        match first_invalid_field(bits) {
            Some((field, value)) => Err(DecodeError::InvalidField { field, value: value as u8 }),
            None => Ok(
                DateTime {
                    year: (CENTURY + year_of(bits)) as u16,
                    month: month_of(bits) as u8,
                    day: day_of(bits) as u8,
                    weekday: weekday_of(bits) as u8,
                    hour: hour_of(bits) as u8,
                    minute: minute_of(bits) as u8,
                    summer_time: bits[17],
                },
            ),
        }
    }
}

/// A number of at most four bits is below sixteen.
proof fn lemma_number_bound(bits: Seq<bool>, from: int, len: int)
    requires
        len <= 4,
    ensures
        len <= 0 ==> number(bits, from, len) == 0,
        len <= 1 ==> number(bits, from, len) <= 1,
        len <= 2 ==> number(bits, from, len) <= 3,
        len <= 3 ==> number(bits, from, len) <= 7,
        number(bits, from, len) <= 15,
    decreases len,
{
    if len > 0 {
        lemma_number_bound(bits, from + 1, len - 1);
    }
}

/// Reads the binary number held by the `len` bits from `from` on.
fn read_number(bits: &[bool; FRAME_BITS], from: usize, len: usize) -> (value: u8)
    requires
        len <= 4,
        from + len <= FRAME_BITS,
    ensures
        value == number(bits@, from as int, len as int),
        value <= 15,
{
    let mut value: u8 = 0;
    let mut i: usize = len;
    while i > 0
        invariant
            i <= len <= 4,
            from + len <= FRAME_BITS,
            value == number(bits@, from + i, len - i),
        decreases i,
    {
        proof {
            lemma_number_bound(bits@, from + i, len - i);
            lemma_number_bound(bits@, from + i - 1, len - i + 1);
        }
        i -= 1;
        value = 2 * value + (if bits[from + i] {
            1
        } else {
            0
        });
    }
    proof {
        lemma_number_bound(bits@, from as int, len as int);
    }
    value
}

/// Reads the decimal that starts at bit `from` and has a tens digit of
/// `tens_bits` bits: its units digit and its value.
fn read_decimal(bits: &[bool; FRAME_BITS], from: usize, tens_bits: usize) -> (r: (u8, u8))
    requires
        tens_bits <= 4,
        from + 4 + tens_bits <= FRAME_BITS,
    ensures
        r.0 == units(bits@, from as int),
        r.1 == decimal(bits@, from as int, tens_bits as int),
        r.1 <= 165,
{
    let units: u8 = read_number(bits, from, 4);
    let tens: u8 = read_number(bits, from + 4, tens_bits);
    (units, 10 * tens + units)
}

/// Tells whether the bits `from` to `to - 1` hold an even number of set bits.
fn parity_is_even(bits: &[bool; FRAME_BITS], from: usize, to: usize) -> (even: bool)
    requires
        from <= to <= FRAME_BITS,
    ensures
        even == even_parity(bits@, from as int, to as int),
{
    let mut even: bool = true;
    let mut i: usize = from;
    while i < to
        invariant
            from <= i <= to <= FRAME_BITS,
            even == even_parity(bits@, from as int, i as int),
        decreases to - i,
    {
        if bits[i] {
            even = !even;
        }
        i += 1;
    }
    even
}

impl Frame {
    /// Decodes the frame into a date and time.
    ///
    /// The frame is only read, and the result depends on its bits alone.
    pub fn decode(&self) -> (r: Result<DateTime, DecodeError>)
        ensures
            r == decoded(self.bits@),
    {
        let bits = &self.bits;
        if !bits[20] {
            return Err(DecodeError::MissingStartBit);
        }
        if !parity_is_even(bits, 21, 29) {
            return Err(DecodeError::ParityError { field: Field::Minute });
        }
        if !parity_is_even(bits, 29, 36) {
            return Err(DecodeError::ParityError { field: Field::Hour });
        }
        if !parity_is_even(bits, 36, 59) {
            return Err(DecodeError::ParityError { field: Field::Date });
        }
        let (minute_units, minute) = read_decimal(bits, 21, 3);
        if minute_units > 9 || minute - minute_units > 50 {
            return Err(DecodeError::InvalidField { field: Field::Minute, value: minute });
        }
        let (hour_units, hour) = read_decimal(bits, 29, 2);
        if hour_units > 9 || hour > 23 {
            return Err(DecodeError::InvalidField { field: Field::Hour, value: hour });
        }
        let (day_units, day) = read_decimal(bits, 36, 2);
        if day_units > 9 || day < 1 || day > 31 {
            return Err(DecodeError::InvalidField { field: Field::Day, value: day });
        }
        let weekday: u8 = read_number(bits, 42, 3);
        if weekday < 1 || weekday > 7 {
            return Err(DecodeError::InvalidField { field: Field::Weekday, value: weekday });
        }
        let (month_units, month) = read_decimal(bits, 45, 1);
        if month_units > 9 || month < 1 || month > 12 {
            return Err(DecodeError::InvalidField { field: Field::Month, value: month });
        }
        let (year_units, year) = read_decimal(bits, 50, 4);
        if year_units > 9 || year - year_units > 90 {
            return Err(DecodeError::InvalidField { field: Field::Year, value: year });
        }
        let full_year: u16 = CENTURY + year as u16;
        if !calendar_date_exists(full_year as i32, month as u32, day as u32) {
            return Err(DecodeError::InvalidField { field: Field::Day, value: day });
        }
        Ok(
            DateTime {
                year: full_year,
                month,
                day,
                weekday,
                hour,
                minute,
                summer_time: bits[17],
            },
        )
    }
}

/// The group whose parity bit protects bit `i`, for a bit between 21 and 58.
pub open spec fn protected_field(i: int) -> Field {
    if i <= 28 {
        Field::Minute
    } else if i <= 35 {
        Field::Hour
    } else {
        Field::Date
    }
}

/// Decoding is repeatable: frames with the same bits decode to the same
/// result, so decoding one frame twice gives the same result twice.
pub proof fn lemma_decode_repeatable(first: Frame, second: Frame)
    requires
        first.bits@ == second.bits@,
    ensures
        decoded(first.bits@) == decoded(second.bits@),
{
}

/// Flipping a bit outside a span leaves the number of set bits in the span
/// as it was.
proof fn lemma_flip_outside(bits: Seq<bool>, i: int, from: int, to: int)
    requires
        0 <= from,
        to <= bits.len(),
        0 <= i < bits.len(),
        i < from || to <= i,
    ensures
        ones(bits.update(i, !bits[i]), from, to) == ones(bits, from, to),
    decreases to - from,
{
    if from < to {
        lemma_flip_outside(bits, i, from, to - 1);
    }
}

/// Flipping a bit inside a span changes the number of set bits in the span
/// by one, and so turns its parity.
proof fn lemma_flip_inside(bits: Seq<bool>, i: int, from: int, to: int)
    requires
        0 <= from <= i < to <= bits.len(),
    ensures
        ones(bits.update(i, !bits[i]), from, to) + 2 * bit_value(bits, i) == ones(bits, from, to)
            + 1,
        even_parity(bits.update(i, !bits[i]), from, to) != even_parity(bits, from, to),
    decreases to - from,
{
    if i == to - 1 {
        lemma_flip_outside(bits, i, from, to - 1);
    } else {
        lemma_flip_inside(bits, i, from, to - 1);
    }
}

/// A single flipped bit is always caught by the parity of its group.
///
/// Take a frame with its start bit set and all three parities even, as every
/// frame that decodes has them. With any one bit between 21 and 58 flipped,
/// the frame decodes to the parity error of the group that the bit belongs
/// to.
pub proof fn lemma_single_flip_is_parity_error(bits: Seq<bool>, i: int)
    requires
        bits.len() == FRAME_BITS,
        21 <= i <= 58,
        bits[20],
        even_parity(bits, 21, 29),
        even_parity(bits, 29, 36),
        even_parity(bits, 36, 59),
    ensures
        decoded(bits.update(i, !bits[i])) == Err::<DateTime, DecodeError>(
            DecodeError::ParityError { field: protected_field(i) },
        ),
{
    if i <= 28 {
        lemma_flip_inside(bits, i, 21, 29);
    } else if i <= 35 {
        lemma_flip_outside(bits, i, 21, 29);
        lemma_flip_inside(bits, i, 29, 36);
    } else {
        lemma_flip_outside(bits, i, 21, 29);
        lemma_flip_outside(bits, i, 29, 36);
        lemma_flip_inside(bits, i, 36, 59);
    }
}

/// A frame that decodes has its start bit set and all three parities even.
pub proof fn lemma_decoded_frame_has_even_parity(bits: Seq<bool>)
    requires
        decoded(bits) is Ok,
    ensures
        bits[20],
        even_parity(bits, 21, 29),
        even_parity(bits, 29, 36),
        even_parity(bits, 36, 59),
{
}

} // verus!
