use ytclip::decimal::Decimal;
use ytclip::video::{extract_video_id, output_file_name, sanitize_title, video_title};

#[test]
fn test_extract_video_id() {
    assert_eq!(
        extract_video_id("https://www.youtube.com/watch?v=dQw4w9WgXcQ"),
        Some("dQw4w9WgXcQ".to_string())
    );
    assert_eq!(
        extract_video_id("https://youtu.be/dQw4w9WgXcQ"),
        Some("dQw4w9WgXcQ".to_string())
    );
}

#[test]
fn extract_video_id_other_forms() {
    assert_eq!(
        extract_video_id("https://www.youtube.com/embed/abc_DEF-123?x=1"),
        Some("abc_DEF-123".to_string())
    );
    assert_eq!(extract_video_id("https://youtu.be/short"), None);
    assert_eq!(extract_video_id("https://vimeo.com/12345678901"), None);
}

#[test]
fn sanitize_title_replaces_reserved_and_squeezes_spaces() {
    assert_eq!(sanitize_title("  a/b\\c:d*e?f\"g<h>i|j  "), "a_b_c_d_e_f_g_h_i_j");
    assert_eq!(sanitize_title("Never  Gonna\tGive\n You Up\n"), "Never Gonna Give You Up");
    assert_eq!(sanitize_title("x\u{3000}y\u{a0}z"), "x y z");
    assert_eq!(sanitize_title("   "), "");
}

#[test]
fn video_title_falls_back_to_default() {
    assert_eq!(video_title(None), "video");
    assert_eq!(video_title(Some(" Song: Live ")), "Song_ Live");
}

#[test]
fn output_file_name_patterns() {
    let one = Decimal { units: 1_000_000_000 };
    let fast = Decimal { units: 1_500_000_000 };
    let two = Decimal { units: 2_000_000_000 };
    assert_eq!(output_file_name(None, "Song", "1:30", "2:45", one), "Song_clip_1-30_2-45.mp4");
    assert_eq!(
        output_file_name(None, "Song", "1:30", "2:45", fast),
        "Song_clip_1-30-2-45_1.5x.mp4"
    );
    assert_eq!(output_file_name(None, "Song", "90", "100", two), "Song_clip_90-100_2x.mp4");
    assert_eq!(
        output_file_name(Some("mine.mp4".to_string()), "Song", "1", "2", fast),
        "mine.mp4"
    );
}
