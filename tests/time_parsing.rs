use ytclip::clip::{plan_clip, ClipError};
use ytclip::decimal::{parse_decimal, to_text, Decimal};
use ytclip::time::{
    clip_duration, parse_time, validate_speed, ParseError, TimeComponent, ValidationError,
};

fn seconds(d: Decimal) -> f64 {
    d.units as f64 / 1e9
}

#[test]
fn test_parse_time() {
    assert_eq!(seconds(parse_time("30").unwrap()), 30.0);
    assert_eq!(seconds(parse_time("1:30").unwrap()), 90.0);
    assert_eq!(seconds(parse_time("1:30:45").unwrap()), 5445.0);
}

#[test]
fn parse_time_rejects_empty_and_four_fields() {
    assert_eq!(parse_time(""), Err(ParseError::InvalidFormat));
    assert_eq!(parse_time("1:2:3:4"), Err(ParseError::InvalidFormat));
}

#[test]
fn parse_time_reports_the_failing_component() {
    assert_eq!(
        parse_time("a:30"),
        Err(ParseError::InvalidComponent(TimeComponent::Minutes))
    );
    assert_eq!(
        parse_time("1:x:30"),
        Err(ParseError::InvalidComponent(TimeComponent::Minutes))
    );
    assert_eq!(
        parse_time("h:1:30"),
        Err(ParseError::InvalidComponent(TimeComponent::Hours))
    );
    assert_eq!(
        parse_time("1:"),
        Err(ParseError::InvalidComponent(TimeComponent::Seconds))
    );
    assert_eq!(
        parse_time("abc"),
        Err(ParseError::InvalidComponent(TimeComponent::Seconds))
    );
}

#[test]
fn parse_time_accepts_fractions_and_unbounded_fields() {
    assert_eq!(parse_time("1.5").unwrap().units, 1_500_000_000);
    assert_eq!(parse_time("1:75").unwrap().units, 135_000_000_000);
    assert_eq!(parse_time("0:0:.25").unwrap().units, 250_000_000);
    assert_eq!(parse_time("2.").unwrap().units, 2_000_000_000);
    assert_eq!(parse_time("+7").unwrap().units, 7_000_000_000);
}

#[test]
fn parse_time_keeps_negative_fields() {
    assert_eq!(parse_time("-5").unwrap().units, -5_000_000_000);
    assert_eq!(parse_time("1:-30").unwrap().units, 30_000_000_000);
}

#[test]
fn parse_time_refuses_malformed_numbers() {
    assert!(parse_time(".").is_err());
    assert!(parse_time("1.2.3").is_err());
    assert!(parse_time(" 5").is_err());
    assert!(parse_time("0.1234567891").is_err());
    assert!(parse_time("1234567890123456789").is_err());
    assert_eq!(parse_time("123456789012345678").unwrap().units, 123456789012345678_000_000_000);
}

#[test]
fn decimal_text_is_shortest() {
    assert_eq!(to_text(Decimal { units: 90_000_000_000 }), "90");
    assert_eq!(to_text(Decimal { units: 1_500_000_000 }), "1.5");
    assert_eq!(to_text(Decimal { units: -250_000_000 }), "-0.25");
    assert_eq!(to_text(Decimal { units: 0 }), "0");
    assert_eq!(to_text(Decimal { units: 1 }), "0.000000001");
    assert_eq!(to_text(Decimal { units: i128::MIN }), "-170141183460469231731687303715.884105728");
}

#[test]
fn parse_decimal_reads_whole_text() {
    assert_eq!(parse_decimal("2.5"), Some(Decimal { units: 2_500_000_000 }));
    assert_eq!(parse_decimal("-0.5"), Some(Decimal { units: -500_000_000 }));
    assert_eq!(parse_decimal(""), None);
    assert_eq!(parse_decimal("1:2"), None);
}

#[test]
fn clip_duration_requires_end_after_start() {
    let a = parse_time("1:00").unwrap();
    let b = parse_time("1:30").unwrap();
    assert_eq!(clip_duration(a, b).unwrap().units, 30_000_000_000);
    assert_eq!(clip_duration(b, a), Err(ValidationError::NonPositiveDuration));
    assert_eq!(clip_duration(a, a), Err(ValidationError::NonPositiveDuration));
}

#[test]
fn validate_speed_bounds() {
    assert!(validate_speed(Decimal { units: 500_000_000 }).is_ok());
    assert!(validate_speed(Decimal { units: 4_000_000_000 }).is_ok());
    assert_eq!(
        validate_speed(Decimal { units: 499_999_999 }),
        Err(ValidationError::SpeedOutOfRange)
    );
    assert_eq!(
        validate_speed(Decimal { units: 4_000_000_001 }),
        Err(ValidationError::SpeedOutOfRange)
    );
}

#[test]
fn plan_clip_reports_errors_in_order() {
    let url = "https://youtu.be/dQw4w9WgXcQ";
    assert_eq!(
        plan_clip(url, "x", "y").unwrap_err(),
        ClipError::Parse(ParseError::InvalidComponent(TimeComponent::Seconds))
    );
    assert_eq!(
        plan_clip(url, "10", "").unwrap_err(),
        ClipError::Parse(ParseError::InvalidFormat)
    );
    assert_eq!(
        plan_clip(url, "20", "10").unwrap_err(),
        ClipError::Validation(ValidationError::NonPositiveDuration)
    );
    assert_eq!(
        plan_clip("https://example.com/v", "10", "20").unwrap_err(),
        ClipError::NoVideoId
    );
}

#[test]
fn plan_clip_accepts_a_valid_request() {
    let p = plan_clip("https://www.youtube.com/watch?v=dQw4w9WgXcQ", "1:30", "2:45").unwrap();
    assert_eq!(p.start.units, 90_000_000_000);
    assert_eq!(p.end.units, 165_000_000_000);
    assert_eq!(p.duration.units, 75_000_000_000);
    assert_eq!(p.video_id, "dQw4w9WgXcQ");
}
