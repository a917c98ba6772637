//! The argument list handed to the transcoder for one clip.
use vstd::prelude::*;
use crate::decimal::{
    Decimal, UNITS, decimal_text, fixed2_text, fixed2_to_text, round_div, round_div_exec, to_text,
};
use crate::decimal::{is_digit, nat_text, unsigned_text};
use crate::time::{speed_in_range, time_in_bounds};

verus! {

/// Speeds within this many units of 1.0 (0.01) count as unchanged.
pub const SPEED_TOLERANCE: i128 = 10_000_000;

/// The views of a list of strings.
pub open spec fn texts(v: Seq<String>) -> Seq<Seq<char>> {
    v.map_values(|s: String| s@)
}

/// A speed close enough to 1.0 that no speed filter is emitted.
pub open spec fn near_unity(speed: int) -> bool {
    -SPEED_TOLERANCE <= speed - UNITS <= SPEED_TOLERANCE
}

/// Items joined with `,` between them.
pub open spec fn join_comma(s: Seq<Seq<char>>) -> Seq<char>
    decreases s.len(),
{
    if s.len() == 0 {
        Seq::empty()
    } else if s.len() == 1 {
        s[0]
    } else {
        join_comma(s.drop_last()) + seq![','] + s.last()
    }
}

/// The tempo stages for a factor of `m / d` units: a stage of 2.0 while the
/// factor exceeds 2.0, halving it each time, then one stage with what is
/// left (two decimals) where that exceeds 1.0.
pub open spec fn tempo_stages(m: int, d: int) -> Seq<Seq<char>>
    decreases m - d,
{
    if d > 0 && m > 2 * d {
        seq!["atempo=2.0"@] + tempo_stages(m, 2 * d)
    } else if d > 0 && m > d {
        seq!["atempo="@ + fixed2_text(round_div((100 * m) as nat, d as nat))]
    } else {
        Seq::empty()
    }
}

/// The timestamp scale for video: `1 / speed` with two decimals.
pub open spec fn video_filter(speed: int) -> Seq<char> {
    "setpts="@ + fixed2_text(round_div((100 * UNITS) as nat, speed as nat)) + "*PTS"@
}

/// The tempo filter for audio: one stage up to 2.0, a chain above it.
pub open spec fn audio_filter(speed: int) -> Seq<char> {
    if speed > 2 * UNITS {
        join_comma(tempo_stages(speed, UNITS as int))
    } else {
        let capped = if speed < 2 * UNITS { speed } else { 2 * UNITS };
        "atempo="@ + fixed2_text(round_div((100 * capped) as nat, UNITS as nat))
    }
}

/// The speed directives: none near 1.0, else video and audio filters.
pub open spec fn speed_args(speed: int) -> Seq<Seq<char>> {
    if near_unity(speed) {
        Seq::empty()
    } else {
        seq!["-filter:v"@, video_filter(speed), "-filter:a"@, audio_filter(speed)]
    }
}

/// The fixed encoding directives: H.264 video, AAC audio, 4:2:0 pixels,
/// index at the front, fast preset, quality 23, overwrite.
pub open spec fn encoding_args() -> Seq<Seq<char>> {
    seq![
        "-c:v"@,
        "libx264"@,
        "-c:a"@,
        "aac"@,
        "-pix_fmt"@,
        "yuv420p"@,
        "-movflags"@,
        "faststart"@,
        "-preset"@,
        "fast"@,
        "-crf"@,
        "23"@,
        "-y"@,
    ]
}

/// Seek, input and duration directives.
pub open spec fn input_args(url: Seq<char>, start: int, duration: int) -> Seq<Seq<char>> {
    seq!["-ss"@, decimal_text(start), "-i"@, url, "-t"@, decimal_text(duration)]
}

/// The whole argument list for one clip.
pub open spec fn ffmpeg_args(
    url: Seq<char>,
    start: int,
    duration: int,
    output: Seq<char>,
    speed: int,
) -> Seq<Seq<char>> {
    input_args(url, start, duration) + speed_args(speed) + encoding_args() + seq![output]
}

/// Whether `speed` differs from 1.0 by more than the tolerance, so that
/// speed filters are needed.
pub fn speed_changes(speed: Decimal) -> (r: bool)
    requires
        speed_in_range(speed),
    ensures
        r == !near_unity(speed.units as int),
{
    speed.units - UNITS > SPEED_TOLERANCE || UNITS - speed.units > SPEED_TOLERANCE
}

fn push_text(v: &mut Vec<String>, s: &str)
    ensures
        texts(final(v)@) == texts(old(v)@).push(s@),
{
    v.push(String::from_str(s));
    assert(texts(final(v)@) =~= texts(old(v)@).push(s@));
}

fn push_string(v: &mut Vec<String>, s: String)
    ensures
        texts(final(v)@) == texts(old(v)@).push(s@),
{
    let ghost sv = s@;
    v.push(s);
    assert(texts(final(v)@) =~= texts(old(v)@).push(sv));
}

/// The chained tempo filter for speeds above 2.0.
fn tempo_chain(m: i128) -> (r: String)
    requires
        2 * UNITS < m <= 4 * UNITS,
    ensures
        r@ == join_comma(tempo_stages(m as int, UNITS as int)),
{
    let mut d: i128 = UNITS;
    let mut out = String::new();
    let ghost mut done: Seq<Seq<char>> = Seq::empty();
    let mut first = true;
    while m > 2 * d
        invariant
            first == (done.len() == 0),
            UNITS <= d <= m <= 4 * UNITS,
            tempo_stages(m as int, UNITS as int) == done + tempo_stages(m as int, d as int),
            out@ == join_comma(done),
        decreases m - d,
    {
        if !first {
            out.append(",");
        }
        first = false;
        out.append("atempo=2.0");
        proof {
            let nd = done.push("atempo=2.0"@);
            assert(nd.drop_last() =~= done);
            assert(done.len() == 0 ==> nd =~= seq!["atempo=2.0"@]);
            assert(out@ =~= join_comma(nd)) by {
                reveal_strlit(",");
            }
            assert(nd + tempo_stages(m as int, 2 * d) =~= done + tempo_stages(m as int, d as int));
            done = nd;
        }
        d = 2 * d;
    }
    if m > d {
        if !first {
            out.append(",");
        }
        first = false;
        out.append("atempo=");
        let q = round_div_exec((100 * m) as u128, d as u128);
        let f = fixed2_to_text(q);
        out.append(f.as_str());
        proof {
            let stage = "atempo="@ + fixed2_text(round_div((100 * m) as nat, d as nat));
            let nd = done.push(stage);
            assert(nd.drop_last() =~= done);
            assert(done.len() == 0 ==> nd =~= seq![stage]);
            assert(out@ =~= join_comma(nd)) by {
                reveal_strlit(",");
            }
            assert(nd =~= done + tempo_stages(m as int, d as int));
            done = nd;
        }
    } else {
        assert(done =~= done + tempo_stages(m as int, d as int));
    }
    out
}

/// The arguments that make the transcoder cut `duration` seconds from
/// `start_seconds` of `url`, at `speed`, into `output_file`.
pub fn build_ffmpeg_command(
    url: &str,
    start_seconds: Decimal,
    duration: Decimal,
    output_file: &str,
    speed: Decimal,
) -> (r: Vec<String>)
    requires
        speed_in_range(speed),
    ensures
        texts(r@) == ffmpeg_args(
            url@,
            start_seconds.units as int,
            duration.units as int,
            output_file@,
            speed.units as int,
        ),
{
    let mut args: Vec<String> = Vec::new();
    push_text(&mut args, "-ss");
    push_string(&mut args, to_text(start_seconds));
    push_text(&mut args, "-i");
    push_text(&mut args, url);
    push_text(&mut args, "-t");
    push_string(&mut args, to_text(duration));
    let ghost base = texts(args@);
    let m = speed.units;
    if speed_changes(speed) {
        let mut video = String::from_str("setpts=");
        let q = round_div_exec((100 * UNITS) as u128, m as u128);
        let f = fixed2_to_text(q);
        video.append(f.as_str());
        video.append("*PTS");
        let audio = if m > 2 * UNITS {
            tempo_chain(m)
        } else {
            let capped = if m < 2 * UNITS { m } else { 2 * UNITS };
            let mut a = String::from_str("atempo=");
            let f = fixed2_to_text(round_div_exec((100 * capped) as u128, UNITS as u128));
            a.append(f.as_str());
            a
        };
        push_text(&mut args, "-filter:v");
        push_string(&mut args, video);
        push_text(&mut args, "-filter:a");
        push_string(&mut args, audio);
    }
    let ghost mid = texts(args@);
    assert(mid =~= input_args(url@, start_seconds.units as int, duration.units as int) + speed_args(
        speed.units as int,
    ));
    push_text(&mut args, "-c:v");
    push_text(&mut args, "libx264");
    push_text(&mut args, "-c:a");
    push_text(&mut args, "aac");
    push_text(&mut args, "-pix_fmt");
    push_text(&mut args, "yuv420p");
    push_text(&mut args, "-movflags");
    push_text(&mut args, "faststart");
    push_text(&mut args, "-preset");
    push_text(&mut args, "fast");
    push_text(&mut args, "-crf");
    push_text(&mut args, "23");
    push_text(&mut args, "-y");
    push_text(&mut args, output_file);
    assert(texts(args@) =~= mid + encoding_args() + seq![output_file@]);
    args
}


/// Two argument lists built from the same inputs are identical: the list is
/// a function of the inputs alone, with no hidden state.
pub proof fn lemma_build_deterministic(
    url: Seq<char>,
    start: int,
    duration: int,
    output: Seq<char>,
    speed: int,
    first: Seq<String>,
    second: Seq<String>,
)
    requires
        texts(first) == ffmpeg_args(url, start, duration, output, speed),
        texts(second) == ffmpeg_args(url, start, duration, output, speed),
    ensures
        texts(first) == texts(second),
{
}

/// Whatever the speed, the list ends with the fixed encoding directives, in
/// their constant order, followed by the output path.
pub proof fn lemma_encoding_args_fixed(
    url: Seq<char>,
    start: int,
    duration: int,
    output: Seq<char>,
    speed: int,
)
    ensures
        ({
            let a = ffmpeg_args(url, start, duration, output, speed);
            &&& a.len() >= 14
            &&& a.subrange(a.len() - 14, a.len() - 1) == encoding_args()
            &&& a.last() == output
        }),
{
    let a = ffmpeg_args(url, start, duration, output, speed);
    let head = input_args(url, start, duration) + speed_args(speed);
    assert(a =~= head + encoding_args() + seq![output]);
    assert(a.subrange(a.len() - 14, a.len() - 1) =~= encoding_args());
}

proof fn lemma_nat_text_shape(v: nat)
    ensures
        nat_text(v).len() >= 1,
        is_digit(nat_text(v)[0]),
    decreases v,
{
    if v >= 10 {
        lemma_nat_text_shape(v / 10);
    }
}

/// The text of a number starts with a digit, or with `-` and then a digit.
proof fn lemma_decimal_text_shape(u: int)
    ensures
        decimal_text(u).len() >= 1,
        decimal_text(u)[0] != '-' ==> is_digit(decimal_text(u)[0]),
        decimal_text(u)[0] == '-' ==> decimal_text(u).len() >= 2 && is_digit(decimal_text(u)[1]),
{
    let m: nat = if u < 0 { (-u) as nat } else { u as nat };
    lemma_nat_text_shape(m / (UNITS as nat));
    let t = unsigned_text(m);
    assert(t.len() >= 1 && t[0] == nat_text(m / (UNITS as nat))[0]);
    if u < 0 {
        assert(decimal_text(u) =~= seq!['-'] + t);
    }
}

proof fn lemma_join_comma_first(s: Seq<Seq<char>>)
    requires
        s.len() >= 1,
        s[0].len() >= 1,
    ensures
        join_comma(s).len() >= 1,
        join_comma(s)[0] == s[0][0],
    decreases s.len(),
{
    if s.len() > 1 {
        lemma_join_comma_first(s.drop_last());
    }
}

/// Near 1.0 (within 0.01 either way) no speed directive is emitted: the list
/// is the input directives, the encoding directives and the output path, and
/// no filter option stands among the directives that the builder writes.
pub proof fn lemma_no_filters_near_unity(
    url: Seq<char>,
    start: int,
    duration: int,
    output: Seq<char>,
    speed: int,
)
    requires
        UNITS - SPEED_TOLERANCE <= speed <= UNITS + SPEED_TOLERANCE,
    ensures
        ffmpeg_args(url, start, duration, output, speed) == input_args(url, start, duration)
            + encoding_args() + seq![output],
        ({
            let a = ffmpeg_args(url, start, duration, output, speed);
            forall|i: int|
                0 <= i < a.len() && i != 3 && i != a.len() - 1 ==> a[i] != "-filter:v"@ && a[i]
                    != "-filter:a"@
        }),
{
    let a = ffmpeg_args(url, start, duration, output, speed);
    assert(speed_args(speed) =~= Seq::<Seq<char>>::empty());
    assert(a =~= input_args(url, start, duration) + encoding_args() + seq![output]);
    lemma_literals_revealed();
    lemma_decimal_text_shape(start);
    lemma_decimal_text_shape(duration);
    assert forall|i: int|
        0 <= i < a.len() && i != 3 && i != a.len() - 1 implies a[i] != "-filter:v"@ && a[i]
            != "-filter:a"@ by {
        if i == 1 || i == 5 {
            if a[i][0] == '-' {
                assert(a[i][1] != 'f');
            }
        } else if i >= 6 {
            assert(a[i] == encoding_args()[i - 6]);
        }
    }
}

/// The speed directives never include `-t`.
proof fn lemma_speed_args_not_duration(speed: int)
    requires
        speed > 0,
    ensures
        forall|j: int| 0 <= j < speed_args(speed).len() ==> speed_args(speed)[j] != "-t"@,
{
    lemma_literals_revealed();
    if !near_unity(speed) {
        let sp = speed_args(speed);
        let v = video_filter(speed);
        assert(v[0] == 's');
        let au = audio_filter(speed);
        if speed > 2 * UNITS {
            let st = tempo_stages(speed, UNITS as int);
            assert(st[0] == "atempo=2.0"@);
            lemma_join_comma_first(st);
            assert(au[0] == 'a');
        } else {
            assert(au[0] == 'a');
        }
        assert forall|j: int| 0 <= j < sp.len() implies sp[j] != "-t"@ by {
            if j == 1 {
                assert(sp[j][0] != '-');
            } else if j == 3 {
                assert(sp[j][0] != '-');
            } else {
                assert(sp[j][1] != 't');
            }
        }
    }
}

/// For a valid range the list holds exactly one duration directive: `-t`
/// followed by the text of `end - start`. No other directive that the
/// builder writes (all but the input locator and the output path) is `-t`.
pub proof fn lemma_one_duration_directive(
    url: Seq<char>,
    start: Decimal,
    end: Decimal,
    output: Seq<char>,
    speed: Decimal,
)
    requires
        time_in_bounds(start),
        time_in_bounds(end),
        end.units > start.units,
        speed_in_range(speed),
    ensures
        ({
            let a = ffmpeg_args(
                url,
                start.units as int,
                end.units - start.units,
                output,
                speed.units as int,
            );
            &&& a[4] == "-t"@
            &&& a[5] == decimal_text(end.units - start.units)
            &&& forall|i: int|
                0 <= i < a.len() && i != 3 && i != a.len() - 1 && a[i] == "-t"@ ==> i == 4
        }),
{
    let d = end.units - start.units;
    let a = ffmpeg_args(url, start.units as int, d, output, speed.units as int);
    let sp = speed_args(speed.units as int);
    lemma_literals_revealed();
    lemma_speed_args_not_duration(speed.units as int);
    lemma_decimal_text_shape(start.units as int);
    lemma_decimal_text_shape(d);
    assert forall|i: int|
        0 <= i < a.len() && i != 3 && i != a.len() - 1 && a[i] == "-t"@ implies i == 4 by {
        if i < 6 {
            if i == 1 || i == 5 {
                if a[i][0] == '-' {
                    assert(a[i][1] != 't');
                }
            }
        } else if i < 6 + sp.len() {
            assert(a[i] == sp[i - 6]);
        } else {
            assert(a[i] == encoding_args()[i - 6 - sp.len()]);
        }
    }
}

/// Makes the text of every fixed directive known to the prover.
proof fn lemma_literals_revealed()
    ensures
        encoding_args() == seq![
            seq!['-', 'c', ':', 'v'],
            seq!['l', 'i', 'b', 'x', '2', '6', '4'],
            seq!['-', 'c', ':', 'a'],
            seq!['a', 'a', 'c'],
            seq!['-', 'p', 'i', 'x', '_', 'f', 'm', 't'],
            seq!['y', 'u', 'v', '4', '2', '0', 'p'],
            seq!['-', 'm', 'o', 'v', 'f', 'l', 'a', 'g', 's'],
            seq!['f', 'a', 's', 't', 's', 't', 'a', 'r', 't'],
            seq!['-', 'p', 'r', 'e', 's', 'e', 't'],
            seq!['f', 'a', 's', 't'],
            seq!['-', 'c', 'r', 'f'],
            seq!['2', '3'],
            seq!['-', 'y'],
        ],
        "-ss"@ == seq!['-', 's', 's'],
        "-i"@ == seq!['-', 'i'],
        "-t"@ == seq!['-', 't'],
        "-filter:v"@ == seq!['-', 'f', 'i', 'l', 't', 'e', 'r', ':', 'v'],
        "-filter:a"@ == seq!['-', 'f', 'i', 'l', 't', 'e', 'r', ':', 'a'],
        ("setpts="@).len() == 7 && "setpts="@[0] == 's',
        ("atempo="@).len() == 7 && "atempo="@[0] == 'a',
        ("atempo=2.0"@).len() == 10 && "atempo=2.0"@[0] == 'a',
{
    reveal_strlit("-ss");
    reveal_strlit("-i");
    reveal_strlit("-t");
    reveal_strlit("-c:v");
    reveal_strlit("libx264");
    reveal_strlit("-c:a");
    reveal_strlit("aac");
    reveal_strlit("-pix_fmt");
    reveal_strlit("yuv420p");
    reveal_strlit("-movflags");
    reveal_strlit("faststart");
    reveal_strlit("-preset");
    reveal_strlit("fast");
    reveal_strlit("-crf");
    reveal_strlit("23");
    reveal_strlit("-y");
    reveal_strlit("-filter:v");
    reveal_strlit("-filter:a");
    reveal_strlit("setpts=");
    reveal_strlit("atempo=");
    reveal_strlit("atempo=2.0");
    assert("-c:v"@ =~= seq!['-', 'c', ':', 'v']);
    assert("libx264"@ =~= seq!['l', 'i', 'b', 'x', '2', '6', '4']);
    assert("-c:a"@ =~= seq!['-', 'c', ':', 'a']);
    assert("aac"@ =~= seq!['a', 'a', 'c']);
    assert("-pix_fmt"@ =~= seq!['-', 'p', 'i', 'x', '_', 'f', 'm', 't']);
    assert("yuv420p"@ =~= seq!['y', 'u', 'v', '4', '2', '0', 'p']);
    assert("-movflags"@ =~= seq!['-', 'm', 'o', 'v', 'f', 'l', 'a', 'g', 's']);
    assert("faststart"@ =~= seq!['f', 'a', 's', 't', 's', 't', 'a', 'r', 't']);
    assert("-preset"@ =~= seq!['-', 'p', 'r', 'e', 's', 'e', 't']);
    assert("fast"@ =~= seq!['f', 'a', 's', 't']);
    assert("-crf"@ =~= seq!['-', 'c', 'r', 'f']);
    assert("23"@ =~= seq!['2', '3']);
    assert("-y"@ =~= seq!['-', 'y']);
    assert(encoding_args() =~= seq![
        seq!['-', 'c', ':', 'v'],
        seq!['l', 'i', 'b', 'x', '2', '6', '4'],
        seq!['-', 'c', ':', 'a'],
        seq!['a', 'a', 'c'],
        seq!['-', 'p', 'i', 'x', '_', 'f', 'm', 't'],
        seq!['y', 'u', 'v', '4', '2', '0', 'p'],
        seq!['-', 'm', 'o', 'v', 'f', 'l', 'a', 'g', 's'],
        seq!['f', 'a', 's', 't', 's', 't', 'a', 'r', 't'],
        seq!['-', 'p', 'r', 'e', 's', 'e', 't'],
        seq!['f', 'a', 's', 't'],
        seq!['-', 'c', 'r', 'f'],
        seq!['2', '3'],
        seq!['-', 'y'],
    ]);
    assert("-ss"@ =~= seq!['-', 's', 's']);
    assert("-i"@ =~= seq!['-', 'i']);
    assert("-t"@ =~= seq!['-', 't']);
    assert("-filter:v"@ =~= seq!['-', 'f', 'i', 'l', 't', 'e', 'r', ':', 'v']);
    assert("-filter:a"@ =~= seq!['-', 'f', 'i', 'l', 't', 'e', 'r', ':', 'a']);
}

} // verus!
