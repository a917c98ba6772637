//! Checking a clip request before anything is fetched.
use vstd::prelude::*;
use crate::decimal::Decimal;
use crate::time::{
    ParseError, ValidationError, clip_duration, parse_time, time_in_bounds, time_units,
};
use crate::video::{VIDEO_ID_PATTERN, extract_video_id, regex_group_one};

verus! {

/// Why a clip request cannot go ahead.
#[derive(Clone, Copy, Debug, PartialEq, Eq, Structural)]
pub enum ClipError {
    /// A timestamp could not be read.
    Parse(ParseError),
    /// The range is empty or reversed.
    Validation(ValidationError),
    /// The link holds no video identifier.
    NoVideoId,
}

/// A checked clip request: its range in seconds and the video it names.
#[derive(Debug)]
pub struct ClipPlan {
    pub start: Decimal,
    pub end: Decimal,
    pub duration: Decimal,
    pub video_id: String,
}

/// What a request yields: start, end and duration in units with the
/// identifier, or the first error met reading the start, the end, the range
/// and the link, in that order.
pub open spec fn plan_outcome(url: Seq<char>, start: Seq<char>, end: Seq<char>) -> Result<
    (int, int, int, Seq<char>),
    ClipError,
> {
    match time_units(start) {
        Err(e) => Err(ClipError::Parse(e)),
        Ok(s) => match time_units(end) {
            Err(e) => Err(ClipError::Parse(e)),
            Ok(t) => if t <= s {
                Err(ClipError::Validation(ValidationError::NonPositiveDuration))
            } else {
                match regex_group_one(VIDEO_ID_PATTERN@, url) {
                    None => Err(ClipError::NoVideoId),
                    Some(id) => Ok((s, t, t - s, id)),
                }
            },
        },
    }
}

/// A plan read as plain values.
pub open spec fn plan_view(r: Result<ClipPlan, ClipError>) -> Result<
    (int, int, int, Seq<char>),
    ClipError,
> {
    match r {
        Ok(p) => Ok((p.start.units as int, p.end.units as int, p.duration.units as int, p.video_id@)),
        Err(e) => Err(e),
    }
}

/// Reads both timestamps, checks that the end is after the start, and finds
/// the video identifier in the link.
pub fn plan_clip(url: &str, start_time: &str, end_time: &str) -> (r: Result<ClipPlan, ClipError>)
    ensures
        plan_view(r) == plan_outcome(url@, start_time@, end_time@),
        r matches Ok(p) ==> time_in_bounds(p.start) && time_in_bounds(p.end),
{
    let start = match parse_time(start_time) {
        Ok(d) => d,
        Err(e) => return Err(ClipError::Parse(e)),
    };
    let end = match parse_time(end_time) {
        Ok(d) => d,
        Err(e) => return Err(ClipError::Parse(e)),
    };
    let duration = match clip_duration(start, end) {
        Ok(d) => d,
        Err(e) => return Err(ClipError::Validation(e)),
    };
    match extract_video_id(url) {
        Some(video_id) => Ok(ClipPlan { start, end, duration, video_id }),
        None => Err(ClipError::NoVideoId),
    }
}

} // verus!
