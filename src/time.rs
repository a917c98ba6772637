//! Timestamps (`SS`, `MM:SS`, `HH:MM:SS`), clip ranges and speed bounds.
use vstd::prelude::*;
use crate::decimal::{Decimal, UNITS, find_char, first_index, number_units, parse_number, pow10, lemma_pow10_values};

verus! {

/// Which field of a timestamp failed to read as a number.
#[derive(Clone, Copy, Debug, PartialEq, Eq, Structural)]
pub enum TimeComponent {
    Hours,
    Minutes,
    Seconds,
}

/// Why a timestamp could not be read.
#[derive(Clone, Copy, Debug, PartialEq, Eq, Structural)]
pub enum ParseError {
    /// The text is empty or has more than three colon-separated fields.
    InvalidFormat,
    /// A field is not a decimal number.
    InvalidComponent(TimeComponent),
}

/// Why a clip request is refused before any directive is built.
#[derive(Clone, Copy, Debug, PartialEq, Eq, Structural)]
pub enum ValidationError {
    /// The end time is not after the start time.
    NonPositiveDuration,
    /// The speed lies outside `[0.5, 4.0]`.
    SpeedOutOfRange,
}

/// Bound on the magnitude of a timestamp's units.
pub const TIME_BOUND: i128 = 1_000_000_000_000_000_000_000_000_000_000_000_000;

/// Lowest speed accepted, in units (0.5).
pub const MIN_SPEED: i128 = 500_000_000;

/// Highest speed accepted, in units (4.0).
pub const MAX_SPEED: i128 = 4_000_000_000;

/// A timestamp's value is within the bound that parsing guarantees.
pub open spec fn time_in_bounds(d: Decimal) -> bool {
    -TIME_BOUND < d.units < TIME_BOUND
}

/// A speed within `[0.5, 4.0]`.
pub open spec fn speed_in_range(d: Decimal) -> bool {
    MIN_SPEED <= d.units <= MAX_SPEED
}

/// The fields of `s` between `:` separators (one field where there is none).
pub open spec fn split_colon(s: Seq<char>) -> Seq<Seq<char>>
    decreases s.len(),
{
    let k = first_index(s, ':');
    if 0 <= k < s.len() {
        seq![s.subrange(0, k)] + split_colon(s.subrange(k + 1, s.len() as int))
    } else {
        seq![s]
    }
}

/// A field's value, or the error that names it.
pub open spec fn field_units(f: Seq<char>, c: TimeComponent) -> Result<int, ParseError> {
    match number_units(f) {
        Some(v) => Ok(v),
        None => Err(ParseError::InvalidComponent(c)),
    }
}

/// Units of a timestamp: seconds alone, `minutes:seconds`, or
/// `hours:minutes:seconds`, summed as `h * 3600 + m * 60 + s`. Fields are
/// read from the left and the first that is not a number is reported.
pub open spec fn time_units(s: Seq<char>) -> Result<int, ParseError> {
    let f = split_colon(s);
    if s.len() == 0 || f.len() > 3 {
        Err(ParseError::InvalidFormat)
    } else if f.len() == 1 {
        field_units(f[0], TimeComponent::Seconds)
    } else if f.len() == 2 {
        match field_units(f[0], TimeComponent::Minutes) {
            Err(e) => Err(e),
            Ok(m) => match field_units(f[1], TimeComponent::Seconds) {
                Err(e) => Err(e),
                Ok(x) => Ok(m * 60 + x),
            },
        }
    } else {
        match field_units(f[0], TimeComponent::Hours) {
            Err(e) => Err(e),
            Ok(h) => match field_units(f[1], TimeComponent::Minutes) {
                Err(e) => Err(e),
                Ok(m) => match field_units(f[2], TimeComponent::Seconds) {
                    Err(e) => Err(e),
                    Ok(x) => Ok(h * 3600 + m * 60 + x),
                },
            },
        }
    }
}

/// The outcome of `parse_time` read as units.
pub open spec fn time_result(r: Result<Decimal, ParseError>) -> Result<int, ParseError> {
    match r {
        Ok(d) => Ok(d.units as int),
        Err(e) => Err(e),
    }
}

proof fn lemma_split_step(s: Seq<char>, lo: int, r: int)
    requires
        0 <= lo <= r <= s.len(),
        r == lo + first_index(s.subrange(lo, s.len() as int), ':'),
    ensures
        r == s.len() ==> split_colon(s.subrange(lo, s.len() as int)) == seq![
            s.subrange(lo, s.len() as int),
        ],
        r < s.len() ==> split_colon(s.subrange(lo, s.len() as int)) == seq![s.subrange(lo, r)]
            + split_colon(s.subrange(r + 1, s.len() as int)),
{
    let u = s.subrange(lo, s.len() as int);
    assert(u.subrange(0, r - lo) =~= s.subrange(lo, r));
    if r < s.len() {
        assert(u.subrange(r - lo + 1, u.len() as int) =~= s.subrange(r + 1, s.len() as int));
    }
}

/// Reads one field as a component of a timestamp.
fn read_field(s: &str, lo: usize, hi: usize, c: TimeComponent) -> (r: Result<Decimal, ParseError>)
    requires
        lo <= hi <= s@.len(),
    ensures
        time_result(r) == field_units(s@.subrange(lo as int, hi as int), c),
        r matches Ok(d) ==> -pow10(18) * UNITS < d.units < pow10(18) * UNITS,
{
    match parse_number(s, lo, hi) {
        Some(d) => Ok(d),
        None => Err(ParseError::InvalidComponent(c)),
    }
}

/// Reads a timestamp given as seconds, `MM:SS` or `HH:MM:SS`; each field is
/// a decimal number and fields carry no bounds of their own (`1:75` is 135
/// seconds). The empty text and texts of more than three fields are
/// `InvalidFormat`; a field that is no number is `InvalidComponent`.
pub fn parse_time(time_str: &str) -> (r: Result<Decimal, ParseError>)
    ensures
        time_result(r) == time_units(time_str@),
        r matches Ok(d) ==> time_in_bounds(d),
{
    let n = time_str.unicode_len();
    let ghost t = time_str@;
    assert(t.subrange(0, n as int) =~= t);
    if n == 0 {
        return Err(ParseError::InvalidFormat);
    }
    proof {
        lemma_pow10_values();
    }
    let c1 = find_char(time_str, ':', 0, n);
    proof {
        lemma_split_step(t, 0, c1 as int);
    }
    if c1 == n {
        return read_field(time_str, 0, n, TimeComponent::Seconds);
    }
    let c2 = find_char(time_str, ':', c1 + 1, n);
    proof {
        lemma_split_step(t, c1 + 1, c2 as int);
    }
    if c2 == n {
        let m = read_field(time_str, 0, c1, TimeComponent::Minutes)?;
        let x = read_field(time_str, c1 + 1, n, TimeComponent::Seconds)?;
        return Ok(Decimal { units: m.units * 60 + x.units });
    }
    let c3 = find_char(time_str, ':', c2 + 1, n);
    proof {
        lemma_split_step(t, c2 + 1, c3 as int);
    }
    if c3 < n {
        return Err(ParseError::InvalidFormat);
    }
    let h = read_field(time_str, 0, c1, TimeComponent::Hours)?;
    let m = read_field(time_str, c1 + 1, c2, TimeComponent::Minutes)?;
    let x = read_field(time_str, c2 + 1, n, TimeComponent::Seconds)?;
    Ok(Decimal { units: h.units * 3600 + m.units * 60 + x.units })
}


/// Length of the clip from `start` to `end`, refused unless `end` is after
/// `start`.
pub fn clip_duration(start: Decimal, end: Decimal) -> (r: Result<Decimal, ValidationError>)
    requires
        time_in_bounds(start),
        time_in_bounds(end),
    ensures
        r is Ok <==> end.units > start.units,
        r matches Ok(d) ==> d.units == end.units - start.units,
        r matches Err(e) ==> e == ValidationError::NonPositiveDuration,
{
    if end.units <= start.units {
        Err(ValidationError::NonPositiveDuration)
    } else {
        Ok(Decimal { units: end.units - start.units })
    }
}

/// Accepts a playback speed within `[0.5, 4.0]`, bounds included.
pub fn validate_speed(speed: Decimal) -> (r: Result<Decimal, ValidationError>)
    ensures
        r is Ok <==> speed_in_range(speed),
        r matches Ok(d) ==> d == speed,
        r matches Err(e) ==> e == ValidationError::SpeedOutOfRange,
{
    if speed.units < MIN_SPEED || speed.units > MAX_SPEED {
        Err(ValidationError::SpeedOutOfRange)
    } else {
        Ok(speed)
    }
}

} // verus!
