//! Video identifiers, titles made safe for file names, and output names.
use vstd::prelude::*;
use crate::decimal::{Decimal, decimal_text, push_char, to_text};
use crate::command::{near_unity, speed_changes};
use crate::time::speed_in_range;

verus! {

/// Capture group 1 of the leftmost-first match of the regular expression
/// `pattern` in `text`; `None` where nothing matches or where `pattern` is
/// not a valid expression.
pub uninterp spec fn regex_group_one(pattern: Seq<char>, text: Seq<char>) -> Option<Seq<char>>;

/// The view of an optional string.
pub open spec fn opt_text(o: Option<String>) -> Option<Seq<char>> {
    match o {
        Some(s) => Some(s@),
        None => None,
    }
}

/// Relies on regex::Regex::new, which returns an error for an invalid
/// pattern, and regex::Regex::captures, which gives the leftmost-first match
/// with its groups: the text of group 1 is returned.
#[verifier::external_body]
fn first_group(pattern: &str, text: &str) -> (r: Option<String>)
    ensures
        opt_text(r) == regex_group_one(pattern@, text@),
{
    match regex::Regex::new(pattern) {
        Ok(re) => re.captures(text).and_then(|c| c.get(1)).map(|m| m.as_str().to_string()),
        Err(_) => None,
    }
}

/// The eleven-character identifier after `youtube.com/watch?v=`,
/// `youtu.be/` or `youtube.com/embed/`.
pub const VIDEO_ID_PATTERN: &'static str =
    r"(?:youtube\.com/watch\?v=|youtu\.be/|youtube\.com/embed/)([a-zA-Z0-9_-]{11})";

/// The video identifier in a watch, short or embed link, if there is one.
pub fn extract_video_id(url: &str) -> (r: Option<String>)
    ensures
        opt_text(r) == regex_group_one(VIDEO_ID_PATTERN@, url@),
{
    first_group(VIDEO_ID_PATTERN, url)
}

/// Characters with the Unicode `White_Space` property.
pub open spec fn is_white(c: char) -> bool {
    ('\u{9}' <= c && c <= '\u{d}') || c == ' ' || c == '\u{85}' || c == '\u{a0}' || c
        == '\u{1680}' || ('\u{2000}' <= c && c <= '\u{200a}') || c == '\u{2028}' || c
        == '\u{2029}' || c == '\u{202f}' || c == '\u{205f}' || c == '\u{3000}'
}

/// Characters that file systems refuse in names.
pub open spec fn is_reserved(c: char) -> bool {
    c == '/' || c == '\\' || c == ':' || c == '*' || c == '?' || c == '"' || c == '<' || c == '>'
        || c == '|'
}

/// A character made safe for a file name: reserved ones become `_`.
pub open spec fn safe_char(c: char) -> char {
    if is_reserved(c) { '_' } else { c }
}

/// Cleaning a title from the left: the text so far, and whether a space is
/// owed before the next word.
pub open spec fn clean_state(s: Seq<char>) -> (Seq<char>, bool)
    decreases s.len(),
{
    if s.len() == 0 {
        (Seq::empty(), false)
    } else {
        let prev = clean_state(s.drop_last());
        let c = s.last();
        if is_white(c) {
            (prev.0, prev.0.len() > 0)
        } else if prev.1 {
            (prev.0.push(' ').push(safe_char(c)), false)
        } else {
            (prev.0.push(safe_char(c)), false)
        }
    }
}

/// A title as a file name: its words (runs of non-whitespace) with reserved
/// characters made `_`, joined by single spaces, with no space at either end.
pub open spec fn clean_title(s: Seq<char>) -> Seq<char> {
    clean_state(s).0
}

pub fn is_white_char(c: char) -> (r: bool)
    ensures
        r == is_white(c),
{
    ('\u{9}' <= c && c <= '\u{d}') || c == ' ' || c == '\u{85}' || c == '\u{a0}' || c
        == '\u{1680}' || ('\u{2000}' <= c && c <= '\u{200a}') || c == '\u{2028}' || c
        == '\u{2029}' || c == '\u{202f}' || c == '\u{205f}' || c == '\u{3000}'
}

fn safe_char_exec(c: char) -> (r: char)
    ensures
        r == safe_char(c),
{
    if c == '/' || c == '\\' || c == ':' || c == '*' || c == '?' || c == '"' || c == '<' || c
        == '>' || c == '|' {
        '_'
    } else {
        c
    }
}

/// A fetched title made fit for a file name.
pub fn sanitize_title(raw: &str) -> (r: String)
    ensures
        r@ == clean_title(raw@),
{
    let n = raw.unicode_len();
    let mut out = String::new();
    let mut pending = false;
    let mut i: usize = 0;
    while i < n
        invariant
            i <= n == raw@.len(),
            (out@, pending) == clean_state(raw@.subrange(0, i as int)),
        decreases n - i,
    {
        let c = raw.get_char(i);
        assert(raw@.subrange(0, i + 1).drop_last() =~= raw@.subrange(0, i as int));
        if is_white_char(c) {
            pending = out.unicode_len() > 0;
        } else {
            if pending {
                push_char(&mut out, ' ');
            }
            push_char(&mut out, safe_char_exec(c));
            pending = false;
        }
        i = i + 1;
    }
    assert(raw@.subrange(0, n as int) =~= raw@);
    out
}

/// The name used where no title could be had.
pub const DEFAULT_TITLE: &'static str = "video";

/// The title for the output name: the cleaned fetched title, or `video`
/// where fetching failed.
pub fn video_title(fetched: Option<&str>) -> (r: String)
    ensures
        fetched matches Some(t) ==> r@ == clean_title(t@),
        fetched is None ==> r@ == DEFAULT_TITLE@,
{
    match fetched {
        Some(t) => sanitize_title(t),
        None => String::from_str(DEFAULT_TITLE),
    }
}

/// A timestamp as it appears in a file name: `:` becomes `-`.
pub open spec fn dashed(s: Seq<char>) -> Seq<char> {
    s.map_values(|c: char| if c == ':' { '-' } else { c })
}

/// The output name derived from the title, the two timestamps as typed and
/// the speed: `<title>_clip_<start>_<end>.mp4`, or
/// `<title>_clip_<start>-<end>_<speed>x.mp4` where the speed changes.
pub open spec fn default_output_name(
    title: Seq<char>,
    start: Seq<char>,
    end: Seq<char>,
    speed: int,
) -> Seq<char> {
    if near_unity(speed) {
        title + "_clip_"@ + dashed(start) + "_"@ + dashed(end) + ".mp4"@
    } else {
        title + "_clip_"@ + dashed(start) + "-"@ + dashed(end) + "_"@ + decimal_text(speed)
            + "x.mp4"@
    }
}

fn push_dashed(out: &mut String, s: &str)
    ensures
        final(out)@ == old(out)@ + dashed(s@),
{
    let n = s.unicode_len();
    let mut i: usize = 0;
    while i < n
        invariant
            i <= n == s@.len(),
            out@ == old(out)@ + dashed(s@.subrange(0, i as int)),
        decreases n - i,
    {
        let c = s.get_char(i);
        let d = if c == ':' { '-' } else { c };
        push_char(out, d);
        assert(dashed(s@.subrange(0, i + 1)) =~= dashed(s@.subrange(0, i as int)).push(d));
        i = i + 1;
    }
    assert(s@.subrange(0, n as int) =~= s@);
}

/// The output file: the name given, or one derived from the title,
/// timestamps and speed.
pub fn output_file_name(
    output_name: Option<String>,
    title: &str,
    start_time: &str,
    end_time: &str,
    speed: Decimal,
) -> (r: String)
    requires
        speed_in_range(speed),
    ensures
        output_name matches Some(o) ==> r@ == o@,
        output_name is None ==> r@ == default_output_name(
            title@,
            start_time@,
            end_time@,
            speed.units as int,
        ),
{
    match output_name {
        Some(o) => o,
        None => {
            let mut out = String::from_str(title);
            out.append("_clip_");
            push_dashed(&mut out, start_time);
            if speed_changes(speed) {
                out.append("-");
                push_dashed(&mut out, end_time);
                out.append("_");
                let t = to_text(speed);
                out.append(t.as_str());
                out.append("x.mp4");
            } else {
                out.append("_");
                push_dashed(&mut out, end_time);
                out.append(".mp4");
            }
            out
        },
    }
}

} // verus!
