use ytclip::command::{build_ffmpeg_command, speed_changes};
use ytclip::decimal::Decimal;
use ytclip::time::parse_time;

const FIXED: [&str; 13] = [
    "-c:v", "libx264", "-c:a", "aac", "-pix_fmt", "yuv420p", "-movflags", "faststart",
    "-preset", "fast", "-crf", "23", "-y",
];

fn speed(units: i128) -> Decimal {
    Decimal { units }
}

fn build(start: &str, end: &str, units: i128) -> Vec<String> {
    let s = parse_time(start).unwrap();
    let e = parse_time(end).unwrap();
    let d = Decimal { units: e.units - s.units };
    build_ffmpeg_command("SRC", s, d, "out.mp4", speed(units))
}

fn value_after(args: &[String], flag: &str) -> Option<String> {
    let i = args.iter().position(|a| a == flag)?;
    args.get(i + 1).cloned()
}

#[test]
fn unit_speed_emits_no_filters() {
    let args = build("1:30", "2:45", 1_000_000_000);
    let expected: Vec<String> = ["-ss", "90", "-i", "SRC", "-t", "75"]
        .iter()
        .chain(FIXED.iter())
        .chain(["out.mp4"].iter())
        .map(|s| s.to_string())
        .collect();
    assert_eq!(args, expected);
}

#[test]
fn near_unity_band_emits_no_filters() {
    for units in [990_000_000, 995_000_000, 1_010_000_000] {
        let args = build("0", "10", units);
        assert!(!args.iter().any(|a| a.starts_with("-filter")));
        assert_eq!(args.len(), 20);
        assert!(!speed_changes(speed(units)));
    }
    assert!(speed_changes(speed(989_999_999)));
    assert!(speed_changes(speed(1_010_000_001)));
}

#[test]
fn speed_three_chains_two_stages() {
    let args = build("0", "10", 3_000_000_000);
    assert_eq!(value_after(&args, "-filter:v").unwrap(), "setpts=0.33*PTS");
    let audio = value_after(&args, "-filter:a").unwrap();
    assert_eq!(audio, "atempo=2.0,atempo=1.50");
    let product: f64 = audio
        .split(',')
        .map(|s| s.trim_start_matches("atempo=").parse::<f64>().unwrap())
        .product();
    assert!((product - 3.0).abs() < 1e-9);
}

#[test]
fn speed_four_chains_two_doublings() {
    let args = build("0", "10", 4_000_000_000);
    let audio = value_after(&args, "-filter:a").unwrap();
    let stages: Vec<f64> = audio
        .split(',')
        .map(|s| s.trim_start_matches("atempo=").parse::<f64>().unwrap())
        .collect();
    assert_eq!(stages, vec![2.0, 2.0]);
    assert_eq!(audio, "atempo=2.0,atempo=2.00");
    assert_eq!(value_after(&args, "-filter:v").unwrap(), "setpts=0.25*PTS");
}

#[test]
fn half_speed_uses_single_stage() {
    let args = build("0", "10", 500_000_000);
    assert_eq!(value_after(&args, "-filter:v").unwrap(), "setpts=2.00*PTS");
    assert_eq!(value_after(&args, "-filter:a").unwrap(), "atempo=0.50");
}

#[test]
fn speeds_up_to_two_use_single_stage() {
    let args = build("0", "10", 2_000_000_000);
    assert_eq!(value_after(&args, "-filter:a").unwrap(), "atempo=2.00");
    assert_eq!(value_after(&args, "-filter:v").unwrap(), "setpts=0.50*PTS");
    let args = build("0", "10", 1_500_000_000);
    assert_eq!(value_after(&args, "-filter:a").unwrap(), "atempo=1.50");
    assert_eq!(value_after(&args, "-filter:v").unwrap(), "setpts=0.67*PTS");
}

#[test]
fn rounding_ties_go_to_even() {
    // 1 / 1.6 is 0.625 exactly: the tie rounds to 0.62.
    let args = build("0", "10", 1_600_000_000);
    assert_eq!(value_after(&args, "-filter:v").unwrap(), "setpts=0.62*PTS");
    // 3.01 / 2 is 1.505 exactly: the tie rounds to 1.50.
    let args = build("0", "10", 3_010_000_000);
    assert_eq!(value_after(&args, "-filter:a").unwrap(), "atempo=2.0,atempo=1.50");
    // 3.03 / 2 is 1.515 exactly: the tie rounds to 1.52.
    let args = build("0", "10", 3_030_000_000);
    assert_eq!(value_after(&args, "-filter:a").unwrap(), "atempo=2.0,atempo=1.52");
}

#[test]
fn one_duration_directive_with_exact_length() {
    let args = build("0.1", "0.3", 2_500_000_000);
    assert_eq!(args.iter().filter(|a| *a == "-t").count(), 1);
    assert_eq!(value_after(&args, "-t").unwrap(), "0.2");
    assert_eq!(value_after(&args, "-ss").unwrap(), "0.1");
    let args = build("1:00:00", "1:00:00.5", 1_000_000_000);
    assert_eq!(value_after(&args, "-t").unwrap(), "0.5");
    assert_eq!(value_after(&args, "-ss").unwrap(), "3600");
}

#[test]
fn encoding_directives_close_every_list() {
    for units in [500_000_000, 1_000_000_000, 1_500_000_000, 3_000_000_000, 4_000_000_000] {
        let args = build("5", "15", units);
        let n = args.len();
        assert_eq!(&args[n - 14..n - 1], &FIXED.map(|s| s.to_string())[..]);
        assert_eq!(args[n - 1], "out.mp4");
    }
}

#[test]
fn building_twice_gives_identical_lists() {
    for units in [500_000_000, 1_000_000_000, 3_000_000_000] {
        assert_eq!(build("1:02:03.5", "1:03", units), build("1:02:03.5", "1:03", units));
    }
}
