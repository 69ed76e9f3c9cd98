use vstd::prelude::*;

use crate::naming::candidate_name;
use crate::text::{decimal, opt_text, push_decimal, same_text, texts};
use crate::crop::push_arg;
use crate::ffmpeg::{useful_error, useful_ffmpeg_error};

verus! {

/// The answer to a finished thumbnail sheet: where it was written.
#[derive(Clone, Debug)]
pub struct ThumbResult {
    pub output_path: String,
}

// ---------------------------------------------------------------------------
// Grid layout
// ---------------------------------------------------------------------------

/// Whether `c` is the square root of `n` rounded up.
pub open spec fn is_ceil_sqrt(n: nat, c: nat) -> bool {
    c * c >= n && (c == 0 || (c - 1) * (c - 1) < n)
}

/// The square root of `n`, rounded up.
pub open spec fn ceil_sqrt(n: nat) -> nat {
    choose|c: nat| #[trigger] is_ceil_sqrt(n, c)
}

/// `n / d`, rounded up.
pub open spec fn ceil_div(n: nat, d: nat) -> nat {
    ((n + d - 1) / d as int) as nat
}

/// The larger of `x` and 1.
pub open spec fn at_least_one(x: nat) -> nat {
    if x < 1 {
        1
    } else {
        x
    }
}

/// The thumbnail grid (columns, rows) for `count` thumbnails: the preset
/// counts 6, 12, 20, 24 and 36 have fixed layouts of 2×3, 3×4, 4×5, 4×6 and
/// 6×6 (rows × columns); any other count gets the square root of the count
/// rounded up as columns and as many rows as needed, at least 1 of each.
pub open spec fn layout_spec(count: nat) -> (nat, nat) {
    if count == 6 {
        (3, 2)
    } else if count == 12 {
        (4, 3)
    } else if count == 20 {
        (5, 4)
    } else if count == 24 {
        (6, 4)
    } else if count == 36 {
        (6, 6)
    } else {
        let cols = at_least_one(ceil_sqrt(count));
        (cols, at_least_one(ceil_div(count, cols)))
    }
}

proof fn lemma_square_monotonic(a: nat, b: nat)
    requires
        a <= b,
    ensures
        a * a <= b * b,
{
    assert(a * a <= b * b) by (nonlinear_arith)
        requires
            a <= b,
    ;
}

/// There is exactly one rounded-up square root.
pub proof fn lemma_ceil_sqrt_unique(n: nat, c: nat)
    requires
        is_ceil_sqrt(n, c),
    ensures
        ceil_sqrt(n) == c,
{
    let d = ceil_sqrt(n);
    assert(is_ceil_sqrt(n, d));
    if d < c {
        lemma_square_monotonic(d, (c - 1) as nat);
    } else if c < d {
        lemma_square_monotonic(c, (d - 1) as nat);
    }
}

/// The grid (columns, rows) that the thumbnails are tiled into.
pub fn layout_for(count: u32) -> (r: (u32, u32))
    ensures
        (r.0 as nat, r.1 as nat) == layout_spec(count as nat),
{
    if count == 6 {
        return (3, 2);
    } else if count == 12 {
        return (4, 3);
    } else if count == 20 {
        return (5, 4);
    } else if count == 24 {
        return (6, 4);
    } else if count == 36 {
        return (6, 6);
    }
    let n = count as u64;
    let mut c: u64 = 0;
    while c * c < n
        invariant
            n == count as u64,
            c <= 65536,
            c * c <= 0x1_0000_0000,
            c == 0 || (c - 1) * (c - 1) < n,
        decreases 65536 - c,
    {
        assert(c < 65536) by (nonlinear_arith)
            requires
                c * c < n,
                n <= 0xffff_ffff,
                c <= 65536,
        ;
        assert((c + 1) * (c + 1) <= 0x1_0000_0000) by (nonlinear_arith)
            requires
                c < 65536,
        ;
        c += 1;
    }
    proof {
        lemma_ceil_sqrt_unique(n as nat, c as nat);
    }
    let cols: u64 = if c < 1 {
        1
    } else {
        c
    };
    let rows0: u64 = (n + cols - 1) / cols;
    let rows: u64 = if rows0 < 1 {
        1
    } else {
        rows0
    };
    assert(rows0 <= n) by (nonlinear_arith)
        requires
            cols >= 1,
            rows0 == (n + cols - 1) / (cols as int),
    ;
    (cols as u32, rows as u32)
}

/// For every count of thumbnails the grid holds all of them, has at least
/// one row, and is no taller than wide.
pub proof fn lemma_layout_fits(count: nat)
    requires
        count >= 1,
    ensures
        layout_spec(count).0 * layout_spec(count).1 >= count,
        layout_spec(count).1 >= 1,
        layout_spec(count).0 >= layout_spec(count).1,
{
    if count != 6 && count != 12 && count != 20 && count != 24 && count != 36 {
        let c = ceil_sqrt(count);
        // a witness for the rounded-up square root
        assert(exists|w: nat| #[trigger] is_ceil_sqrt(count, w)) by {
            lemma_ceil_sqrt_exists(count);
        }
        assert(is_ceil_sqrt(count, c));
        assert(c >= 1) by (nonlinear_arith)
            requires
                c * c >= count,
                count >= 1,
        ;
        let rows = ceil_div(count, c);
        assert(c * rows >= count && rows >= 1 && rows <= c) by (nonlinear_arith)
            requires
                c >= 1,
                count >= 1,
                c * c >= count,
                rows == ((count + c - 1) / c as int) as nat,
        ;
    }
}

/// Every number has a rounded-up square root.
pub proof fn lemma_ceil_sqrt_exists(n: nat)
    ensures
        exists|c: nat| #[trigger] is_ceil_sqrt(n, c),
    decreases n,
{
    if n == 0 {
        assert(is_ceil_sqrt(0, 0));
    } else {
        let m = (n - 1) as nat;
        lemma_ceil_sqrt_exists(m);
        let d = choose|c: nat| #[trigger] is_ceil_sqrt(m, c);
        if d * d >= n {
            assert(is_ceil_sqrt(n, d));
        } else {
            assert(d * d == n - 1);
            assert((d + 1) * (d + 1) >= n) by (nonlinear_arith)
                requires
                    d * d == n - 1,
            ;
            assert(is_ceil_sqrt(n, d + 1));
        }
    }
}


// ---------------------------------------------------------------------------
// Request and output
// ---------------------------------------------------------------------------

/// The fewest and most thumbnails a sheet can hold.
pub open spec fn count_in_range(count: nat) -> bool {
    1 <= count <= 200
}

/// Checks the number of thumbnails asked for: from 1 to 200.
pub fn validate_thumb_count(count: u32) -> (r: Result<(), String>)
    ensures
        r is Ok <==> count_in_range(count as nat),
        r matches Err(e) ==> e@ == "缩略图数量需在 1~200 之间"@,
{
    if 1 <= count && count <= 200 {
        Ok(())
    } else {
        Err(String::from_str("缩略图数量需在 1~200 之间"))
    }
}

/// The base of thumbnail sheet names: the source's stem and `-thumb`.
pub open spec fn thumb_base(stem: Seq<char>) -> Seq<char> {
    stem + "-thumb"@
}

/// The name of the thumbnail sheet at attempt `index`: `<stem>-thumb.jpg`,
/// then `<stem>-thumb (1).jpg`, `<stem>-thumb (2).jpg`, ...
pub fn thumb_file_name(stem: &str, index: u32) -> (r: String)
    ensures
        r@ == candidate_name(thumb_base(stem@), "jpg"@, index as nat),
{
    let mut base = String::from_str(stem);
    base.append("-thumb");
    crate::naming::output_file_name(base.as_str(), "jpg", index)
}

/// The ffmpeg video filter that takes one frame every `interval` seconds
/// (given written out), scales it to 240 pixels wide and tiles `count`
/// frames into the grid of `layout_spec`.
pub open spec fn video_filter_spec(interval: Seq<char>, count: nat) -> Seq<char> {
    "fps=1/"@ + interval + ",scale=240:-1,tile="@ + decimal(layout_spec(count).0) + "x"@
        + decimal(layout_spec(count).1)
}

/// The ffmpeg video filter of a thumbnail sheet (see `video_filter_spec`).
pub fn video_filter(interval: &str, count: u32) -> (r: String)
    ensures
        r@ == video_filter_spec(interval@, count as nat),
{
    let (cols, rows) = layout_for(count);
    let mut r = String::from_str("fps=1/");
    r.append(interval);
    r.append(",scale=240:-1,tile=");
    push_decimal(&mut r, cols as u64);
    r.append("x");
    push_decimal(&mut r, rows as u64);
    r
}

/// The ffmpeg arguments that write the sheet of `input` to `output` with the
/// video filter `filter`, never overwriting.
pub open spec fn thumb_args_spec(input: Seq<char>, filter: Seq<char>, output: Seq<char>) -> Seq<
    Seq<char>,
> {
    seq!["-i"@, input, "-vf"@, filter, "-frames:v"@, "1"@, "-n"@, output]
}

/// The ffmpeg arguments of a thumbnail sheet (see `thumb_args_spec`).
pub fn thumb_args(input: &str, filter: &str, output: &str) -> (r: Vec<String>)
    ensures
        texts(r@) == thumb_args_spec(input@, filter@, output@),
{
    let mut args: Vec<String> = Vec::new();
    push_arg(&mut args, "-i");
    push_arg(&mut args, input);
    push_arg(&mut args, "-vf");
    push_arg(&mut args, filter);
    push_arg(&mut args, "-frames:v");
    push_arg(&mut args, "1");
    push_arg(&mut args, "-n");
    push_arg(&mut args, output);
    assert(texts(args@) =~= thumb_args_spec(input@, filter@, output@));
    args
}

/// The declaration of `serde_json::Error`, which a failed parse gives.
#[verifier::external_type_specification]
#[verifier::external_body]
pub struct ExJsonError(serde_json::Error);

// What `serde_json::from_slice` makes of the probe's output, read for a
// thumbnail sheet: the codec type of each stream (for each entry of
// `streams`, where that is a list) and the duration text of `format`; none
// where the output is not JSON.
pub uninterp spec fn json_thumb_summary(bytes: Seq<u8>) -> Option<(Seq<Option<Seq<char>>>, Option<Seq<char>>)>;

/// The texts of a list of optional strings.
pub open spec fn opt_texts(v: Seq<Option<String>>) -> Seq<Option<Seq<char>>> {
    v.map_values(|o: Option<String>| opt_text(o))
}

/// Calls `serde_json::from_slice` into a `serde_json::Value` and reads the
/// streams' `codec_type` strings and the `format`'s `duration` string out of
/// it (a missing or non-string field reads as none, missing `streams` as no
/// streams). Claimed: the outcome depends on the bytes alone (it is named
/// `json_thumb_summary`, and a parse error there is none); what JSON parsing
/// accepts is not stated.
#[verifier::external_body]
fn parse_thumb_probe(bytes: &[u8]) -> (r: Result<(Vec<Option<String>>, Option<String>), serde_json::Error>)
    ensures
        match r {
            Ok(x) => json_thumb_summary(bytes@) == Some((opt_texts(x.0@), opt_text(x.1))),
            Err(_) => json_thumb_summary(bytes@) is None,
        },
{
    let v: serde_json::Value = serde_json::from_slice(bytes)?;
    let types = match v["streams"].as_array() {
        Some(arr) => arr.iter().map(|s| s["codec_type"].as_str().map(|t| t.to_string())).collect(),
        None => Vec::new(),
    };
    Ok((types, v["format"]["duration"].as_str().map(|d| d.to_string())))
}

/// Writes out a JSON parse error (`Display` of `serde_json::Error`). Nothing
/// is claimed of the text.
#[verifier::external_body]
fn json_error_text(e: &serde_json::Error) -> String {
    e.to_string()
}

/// Reads what a thumbnail sheet needs from the probe's output: the codec
/// type of each stream and the duration text; where the output is not JSON,
/// the message `解析 ffprobe 输出失败:` followed by the parser's explanation.
pub fn read_thumb_probe(stdout: &[u8]) -> (r: Result<(Vec<Option<String>>, Option<String>), String>)
    ensures
        r is Err <==> json_thumb_summary(stdout@) is None,
        r matches Ok(x) ==> json_thumb_summary(stdout@) == Some((opt_texts(x.0@), opt_text(x.1))),
        r matches Err(e) ==> exists|why: Seq<char>| e@ == "解析 ffprobe 输出失败:"@ + why,
{
    match parse_thumb_probe(stdout) {
        Ok(x) => Ok(x),
        Err(e) => {
            let why = json_error_text(&e);
            let m = crate::text::prefixed("解析 ffprobe 输出失败:", why.as_str());
            assert(m@ == "解析 ffprobe 输出失败:"@ + why@);
            Err(m)
        },
    }
}

/// Whether a stream's codec type is `video`.
pub open spec fn is_video_type(codec_type: Option<String>) -> bool {
    codec_type matches Some(t) && t@ == "video"@
}

/// Whether one of the streams, given by their codec types, is a video.
pub open spec fn has_video_spec(codec_types: Seq<Option<String>>) -> bool {
    exists|i: int| 0 <= i < codec_types.len() && is_video_type(#[trigger] codec_types[i])
}

/// Checks that the source can have a thumbnail sheet: it has a video stream
/// (by the codec types of its streams), and a known positive duration to
/// space the frames by.
pub open spec fn thumb_source_spec(codec_types: Seq<Option<String>>, has_duration: bool) -> Result<
    (),
    Seq<char>,
> {
    if !has_video_spec(codec_types) {
        Err("该文件没有视频流,无法生成缩略图(纯音频文件不支持)"@)
    } else if !has_duration {
        Err("无法获取视频时长,不能计算缩略图间隔"@)
    } else {
        Ok(())
    }
}

/// Whether one of the streams, given by their codec types, is a video.
pub fn has_video_stream(codec_types: &Vec<Option<String>>) -> (r: bool)
    ensures
        r == has_video_spec(codec_types@),
{
    let mut i: usize = 0;
    while i < codec_types.len()
        invariant
            i <= codec_types@.len(),
            forall|k: int| 0 <= k < i ==> !is_video_type(#[trigger] codec_types@[k]),
        decreases codec_types.len() - i,
    {
        let is_video = match &codec_types[i] {
            Some(t) => same_text(t.as_str(), "video"),
            None => false,
        };
        if is_video {
            assert(is_video_type(codec_types@[i as int]));
            return true;
        }
        i += 1;
    }
    false
}

/// Checks that the source can have a thumbnail sheet (see
/// `thumb_source_spec`).
pub fn check_thumb_source(codec_types: &Vec<Option<String>>, has_duration: bool) -> (r: Result<
    (),
    String,
>)
    ensures
        match r {
            Ok(()) => thumb_source_spec(codec_types@, has_duration) is Ok,
            Err(e) => thumb_source_spec(codec_types@, has_duration) == Err::<(), Seq<char>>(e@),
        },
{
    let found = has_video_stream(codec_types);
    if !found {
        return Err(String::from_str("该文件没有视频流,无法生成缩略图(纯音频文件不支持)"));
    }
    assert(has_video_spec(codec_types@));
    if !has_duration {
        return Err(String::from_str("无法获取视频时长,不能计算缩略图间隔"));
    }
    Ok(())
}


/// The message when no free name for the sheet was found.
pub fn thumb_names_exhausted_message() -> (r: String)
    ensures
        r@ == "同名缩略图太多,无法生成不重名的输出文件"@,
{
    String::from_str("同名缩略图太多,无法生成不重名的输出文件")
}

/// The message when ffmpeg ended without writing the sheet.
pub fn thumb_output_missing_message() -> (r: String)
    ensures
        r@ == "ffmpeg 已退出,但没有生成缩略图文件"@,
{
    String::from_str("ffmpeg 已退出,但没有生成缩略图文件")
}

/// The message when ffmpeg failed to write the sheet.
pub fn thumb_failed_message(stderr: &str) -> (r: String)
    ensures
        r@ == "生成缩略图失败:"@ + useful_error(stderr@),
{
    let u = useful_ffmpeg_error(stderr);
    crate::text::prefixed("生成缩略图失败:", u.as_str())
}

} // verus!
