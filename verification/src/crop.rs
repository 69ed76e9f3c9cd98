use vstd::prelude::*;

use crate::text::{
    chars_of, decimal, find_char, push_decimal, same_text, string_of, text_result,
    texts, trim, trim_bounds, is_white_space, lemma_trim, lemma_trim_unchanged,
};
use crate::ffmpeg::{useful_error, useful_ffmpeg_error};

verus! {

// ---------------------------------------------------------------------------
// Output name
// ---------------------------------------------------------------------------

/// `s` without trailing dots and spaces.
pub open spec fn strip_dots_spaces(s: Seq<char>) -> Seq<char>
    decreases s.len(),
{
    if s.len() > 0 && (s.last() == '.' || s.last() == ' ') {
        strip_dots_spaces(s.drop_last())
    } else {
        s
    }
}

/// The output name as it is used: without surrounding white space and
/// without trailing dots and spaces.
pub open spec fn cleaned_output_name(raw: Seq<char>) -> Seq<char> {
    strip_dots_spaces(trim(raw))
}

/// The outcome of checking an output file name (given without extension).
pub open spec fn output_name_result(raw: Seq<char>) -> Result<Seq<char>, Seq<char>> {
    let n = cleaned_output_name(raw);
    if n.len() == 0 {
        Err("请填写输出文件名(不含扩展名)"@)
    } else if n == "."@ || n == ".."@ {
        Err("输出文件名不能是 . 或 .."@)
    } else if n.contains('/') || n.contains('\\') || n.contains(':') {
        Err("输出文件名不能包含 / \\ : 字符"@)
    } else if n.len() > 200 {
        Err("输出文件名过长"@)
    } else {
        Ok(n)
    }
}

/// Checks and tidies the output file name (given without extension): it must
/// not be empty, and must not hold a path separator, so that it cannot point
/// into another folder.
pub fn validate_output_name(name: &str) -> (r: Result<String, String>)
    ensures
        text_result(r) == output_name_result(name@),
{
    let v = chars_of(name);
    let (a, b) = trim_bounds(&v);
    let ghost t = v@.subrange(a as int, b as int);
    let mut j = b;
    assert(v@.subrange(a as int, j as int) =~= t);
    while j > a && (v[j - 1] == '.' || v[j - 1] == ' ')
        invariant
            a <= j <= b <= v@.len(),
            t == v@.subrange(a as int, b as int),
            strip_dots_spaces(t) == strip_dots_spaces(v@.subrange(a as int, j as int)),
        decreases j,
    {
        assert(v@.subrange(a as int, j as int).drop_last() =~= v@.subrange(a as int, j - 1));
        j -= 1;
    }
    let ghost n = v@.subrange(a as int, j as int);
    assert(cleaned_output_name(name@) == n);
    if j == a {
        return Err(String::from_str("请填写输出文件名(不含扩展名)"));
    }
    let cleaned = string_of(&v, a, j);
    if same_text(cleaned.as_str(), ".") || same_text(cleaned.as_str(), "..") {
        return Err(String::from_str("输出文件名不能是 . 或 .."));
    }
    let slash = find_char(&v, a, j, '/');
    let backslash = find_char(&v, a, j, '\\');
    let colon = find_char(&v, a, j, ':');
    if slash.is_some() || backslash.is_some() || colon.is_some() {
        proof {
            if let Some(i) = slash {
                assert(n[i - a] == '/');
            }
            if let Some(i) = backslash {
                assert(n[i - a] == '\\');
            }
            if let Some(i) = colon {
                assert(n[i - a] == ':');
            }
        }
        return Err(String::from_str("输出文件名不能包含 / \\ : 字符"));
    }
    assert(!n.contains('/') && !n.contains('\\') && !n.contains(':')) by {
        assert forall|k: int| 0 <= k < n.len() implies n[k] != '/' && n[k] != '\\' && n[k]
            != ':' by {
            assert(v@[a + k] == n[k]);
        }
    }
    if j - a > 200 {
        return Err(String::from_str("输出文件名过长"));
    }
    Ok(cleaned)
}


/// The answer to a finished crop: where the output was written.
#[derive(Clone, Debug)]
pub struct CropResult {
    pub output_path: String,
}

// ---------------------------------------------------------------------------
// Segments
// ---------------------------------------------------------------------------

/// A time in the source, as the window gave it in seconds, held as what the
/// checks and ffmpeg need of it: `rank` places it among all times (larger
/// rank, later time; 0 exactly for zero, negative exactly for times before
/// zero; `None` for a value that is not a number, which is neither earlier
/// nor later than anything), `finite` tells whether it is a finite number,
/// and `text` is how ffmpeg is given it (seconds with three decimals, a time
/// before zero as 0).
#[derive(Clone, Debug)]
pub struct TimePoint {
    pub rank: Option<i64>,
    pub finite: bool,
    pub text: String,
}

/// One piece of the source to keep: its start and end; `None` stands for the
/// beginning (start) or the end of the file (end).
#[derive(Clone, Debug)]
pub struct CropSegment {
    pub start: Option<TimePoint>,
    pub end: Option<TimePoint>,
}

/// Whether `t` is a time after zero.
pub open spec fn is_after_zero(t: TimePoint) -> bool {
    t.rank matches Some(r) && r > 0
}

/// Whether `t` is a time before zero.
pub open spec fn is_before_zero(t: TimePoint) -> bool {
    t.rank matches Some(r) && r < 0
}

/// Whether `s` is not earlier than `e`.
pub open spec fn not_before(s: TimePoint, e: TimePoint) -> bool {
    s.rank is Some && e.rank is Some && s.rank->0 >= e.rank->0
}

/// The label of the segment at (0-based) position `k` in messages.
pub open spec fn segment_label(k: nat) -> Seq<char> {
    "片段 "@ + decimal(k + 1)
}

/// What is wrong with the segment at (0-based) position `k`, if anything.
pub open spec fn segment_error(k: nat, seg: CropSegment) -> Option<Seq<char>> {
    if seg.start is None && seg.end is None {
        Some(segment_label(k) + " 的起始和终止时间不能同时为空"@)
    } else if seg.end matches Some(e) && (!e.finite || !is_after_zero(e)) {
        Some(segment_label(k) + " 的终止时间必须大于 0 秒"@)
    } else if seg.end matches Some(e) && seg.start matches Some(s) && not_before(s, e) {
        Some(segment_label(k) + " 的起始时间必须早于终止时间"@)
    } else if seg.start matches Some(s) && is_before_zero(s) {
        Some(segment_label(k) + " 的起始时间不能为负数"@)
    } else {
        None
    }
}

/// The first error among the segments from position `from` on.
pub open spec fn first_segment_error(segs: Seq<CropSegment>, from: int) -> Option<Seq<char>>
    decreases segs.len() - from,
{
    if from < 0 || from >= segs.len() {
        None
    } else {
        match segment_error(from as nat, segs[from]) {
            Some(e) => Some(e),
            None => first_segment_error(segs, from + 1),
        }
    }
}

/// The outcome of checking a crop request: the output name as it is used,
/// or the message of the first problem found.
pub open spec fn crop_request_result(name: Seq<char>, segs: Seq<CropSegment>) -> Result<
    Seq<char>,
    Seq<char>,
> {
    match output_name_result(name) {
        Err(e) => Err(e),
        Ok(n) => if segs.len() == 0 {
            Err("至少需要一个裁剪片段"@)
        } else {
            match first_segment_error(segs, 0) {
                Some(e) => Err(e),
                None => Ok(n),
            }
        },
    }
}

fn segment_message(k: usize, tail: &str) -> (r: String)
    requires
        k < usize::MAX,
    ensures
        r@ == segment_label(k as nat) + tail@,
{
    let mut r = String::from_str("片段 ");
    push_decimal(&mut r, (k + 1) as u64);
    r.append(tail);
    r
}

/// The first problem of the segment at (0-based) position `k`, if any.
pub fn check_segment(k: usize, seg: &CropSegment) -> (r: Option<String>)
    requires
        k < usize::MAX,
    ensures
        match r {
            Some(m) => segment_error(k as nat, *seg) == Some(m@),
            None => segment_error(k as nat, *seg) is None,
        },
{
    if seg.start.is_none() && seg.end.is_none() {
        return Some(segment_message(k, " 的起始和终止时间不能同时为空"));
    }
    if let Some(e) = &seg.end {
        let after_zero = match e.rank {
            Some(r) => r > 0,
            None => false,
        };
        if !e.finite || !after_zero {
            return Some(segment_message(k, " 的终止时间必须大于 0 秒"));
        }
        if let Some(s) = &seg.start {
            let later = match (s.rank, e.rank) {
                (Some(a), Some(b)) => a >= b,
                _ => false,
            };
            if later {
                return Some(segment_message(k, " 的起始时间必须早于终止时间"));
            }
        }
    }
    if let Some(s) = &seg.start {
        let before_zero = match s.rank {
            Some(r) => r < 0,
            None => false,
        };
        if before_zero {
            return Some(segment_message(k, " 的起始时间不能为负数"));
        }
    }
    None
}

/// Checks a crop request before any file is touched: the output name (see
/// `validate_output_name`), then that there is a segment, then each segment
/// in order. Gives the output name as it is used.
pub fn validate_crop_request(output_name: &str, segments: &Vec<CropSegment>) -> (r: Result<
    String,
    String,
>)
    ensures
        text_result(r) == crop_request_result(output_name@, segments@),
{
    let name = match validate_output_name(output_name) {
        Ok(n) => n,
        Err(e) => return Err(e),
    };
    if segments.len() == 0 {
        return Err(String::from_str("至少需要一个裁剪片段"));
    }
    let mut i: usize = 0;
    while i < segments.len()
        invariant
            i <= segments@.len(),
            segments@.len() > 0,
            output_name_result(output_name@) == Ok::<Seq<char>, Seq<char>>(name@),
            first_segment_error(segments@, 0) == first_segment_error(segments@, i as int),
        decreases segments.len() - i,
    {
        if let Some(m) = check_segment(i, &segments[i]) {
            assert(first_segment_error(segments@, i as int) == Some(m@));
            return Err(m);
        }
        i += 1;
    }
    Ok(name)
}

// ---------------------------------------------------------------------------
// ffmpeg arguments
// ---------------------------------------------------------------------------

/// The seek to the segment's start, where it has one.
pub open spec fn start_args(seg: CropSegment) -> Seq<Seq<char>> {
    match seg.start {
        Some(s) => seq!["-ss"@, s.text@],
        None => Seq::empty(),
    }
}

/// The stop at the segment's end, where it has one.
pub open spec fn end_args(seg: CropSegment) -> Seq<Seq<char>> {
    match seg.end {
        Some(e) => seq!["-to"@, e.text@],
        None => Seq::empty(),
    }
}

/// The ffmpeg arguments that cut one segment out of `input` into `output`
/// by stream copy (no re-encoding); `overwrite` chooses `-y` over `-n`.
pub open spec fn cut_args_spec(seg: CropSegment, input: Seq<char>, output: Seq<char>, overwrite: bool) -> Seq<Seq<char>> {
    start_args(seg) + end_args(seg) + seq![
        "-i"@,
        input,
        "-c"@,
        "copy"@,
        if overwrite {
            "-y"@
        } else {
            "-n"@
        },
        output,
    ]
}

/// Appends a copy of `s` to `args`.
pub fn push_arg(args: &mut Vec<String>, s: &str)
    ensures
        texts(final(args)@) == texts(old(args)@).push(s@),
{
    args.push(String::from_str(s));
    assert(texts(args@) =~= texts(old(args)@).push(s@));
}

/// The ffmpeg arguments that cut one segment out of `input` into `output`.
pub fn cut_args(seg: &CropSegment, input: &str, output: &str, overwrite: bool) -> (r: Vec<String>)
    ensures
        texts(r@) == cut_args_spec(*seg, input@, output@, overwrite),
{
    let mut args: Vec<String> = Vec::new();
    let ghost part1 = start_args(*seg);
    let ghost part2 = end_args(*seg);
    if let Some(s) = &seg.start {
        push_arg(&mut args, "-ss");
        push_arg(&mut args, s.text.as_str());
    }
    assert(texts(args@) =~= part1);
    if let Some(e) = &seg.end {
        push_arg(&mut args, "-to");
        push_arg(&mut args, e.text.as_str());
    }
    assert(texts(args@) =~= part1 + part2);
    push_arg(&mut args, "-i");
    push_arg(&mut args, input);
    push_arg(&mut args, "-c");
    push_arg(&mut args, "copy");
    if overwrite {
        push_arg(&mut args, "-y");
    } else {
        push_arg(&mut args, "-n");
    }
    push_arg(&mut args, output);
    assert(texts(args@) =~= cut_args_spec(*seg, input@, output@, overwrite));
    args
}

/// The ffmpeg arguments that join the pieces named in the list file
/// `list_path` into `output`, without re-encoding.
pub open spec fn concat_args_spec(list_path: Seq<char>, output: Seq<char>) -> Seq<Seq<char>> {
    seq!["-f"@, "concat"@, "-safe"@, "0"@, "-i"@, list_path, "-c"@, "copy"@, "-y"@, output]
}

/// The ffmpeg arguments that join the pieces named in `list_path`.
pub fn concat_args(list_path: &str, output: &str) -> (r: Vec<String>)
    ensures
        texts(r@) == concat_args_spec(list_path@, output@),
{
    let mut args: Vec<String> = Vec::new();
    push_arg(&mut args, "-f");
    push_arg(&mut args, "concat");
    push_arg(&mut args, "-safe");
    push_arg(&mut args, "0");
    push_arg(&mut args, "-i");
    push_arg(&mut args, list_path);
    push_arg(&mut args, "-c");
    push_arg(&mut args, "copy");
    push_arg(&mut args, "-y");
    push_arg(&mut args, output);
    assert(texts(args@) =~= concat_args_spec(list_path@, output@));
    args
}

/// The list file of ffmpeg's concat demuxer: one `file '<path>'` line per
/// piece, in order.
pub open spec fn concat_list_spec(paths: Seq<Seq<char>>) -> Seq<char>
    decreases paths.len(),
{
    if paths.len() == 0 {
        Seq::empty()
    } else {
        concat_list_spec(paths.drop_last()) + "file '"@ + paths.last() + "'\n"@
    }
}

/// Writes the concat list for the pieces at `paths`.
pub fn concat_list(paths: &Vec<String>) -> (r: String)
    ensures
        r@ == concat_list_spec(texts(paths@)),
{
    let mut r = String::new();
    let mut i: usize = 0;
    assert(texts(paths@).take(0) =~= Seq::<Seq<char>>::empty());
    while i < paths.len()
        invariant
            i <= paths@.len(),
            r@ == concat_list_spec(texts(paths@).take(i as int)),
        decreases paths.len() - i,
    {
        r.append("file '");
        r.append(paths[i].as_str());
        r.append("'\n");
        assert(texts(paths@).take(i + 1).drop_last() =~= texts(paths@).take(i as int));
        i += 1;
    }
    assert(texts(paths@).take(paths@.len() as int) =~= texts(paths@));
    r
}

/// The file name of the piece at (0-based) position `k`, with extension `ext`.
pub open spec fn piece_file_name_spec(k: nat, ext: Seq<char>) -> Seq<char> {
    "seg_"@ + decimal(k) + seq!['.'] + ext
}

/// The file name of the piece at (0-based) position `k`.
pub fn piece_file_name(k: usize, ext: &str) -> (r: String)
    ensures
        r@ == piece_file_name_spec(k as nat, ext@),
{
    let mut r = String::from_str("seg_");
    push_decimal(&mut r, k as u64);
    r.push('.');
    r.append(ext);
    assert(r@ =~= piece_file_name_spec(k as nat, ext@));
    r
}

/// The name of the scratch folder of the process `pid`.
pub fn scratch_dir_name(pid: u32) -> (r: String)
    ensures
        r@ == "mediatool-crop-"@ + decimal(pid as nat),
{
    let mut r = String::from_str("mediatool-crop-");
    push_decimal(&mut r, pid as u64);
    r
}

/// The message when the single cut failed, from ffmpeg's error output.
pub fn cut_failed_message(stderr: &str) -> (r: String)
    ensures
        r@ == "裁剪失败:"@ + useful_error(stderr@),
{
    let mut r = String::from_str("裁剪失败:");
    let u = useful_ffmpeg_error(stderr);
    r.append(u.as_str());
    r
}

/// The message when cutting the piece at (0-based) position `k` failed.
pub fn piece_failed_message(k: usize, stderr: &str) -> (r: String)
    requires
        k < usize::MAX,
    ensures
        r@ == segment_label(k as nat) + " 裁剪失败:"@ + useful_error(stderr@),
{
    let mut r = segment_message(k, " 裁剪失败:");
    let u = useful_ffmpeg_error(stderr);
    r.append(u.as_str());
    r
}

/// The message when joining the pieces failed.
pub fn join_failed_message(stderr: &str) -> (r: String)
    ensures
        r@ == "片段合并失败:"@ + useful_error(stderr@),
{
    let mut r = String::from_str("片段合并失败:");
    let u = useful_ffmpeg_error(stderr);
    r.append(u.as_str());
    r
}


/// The message when no free output name was found.
pub fn crop_names_exhausted_message() -> (r: String)
    ensures
        r@ == "同名文件太多,无法生成不重名的输出文件"@,
{
    String::from_str("同名文件太多,无法生成不重名的输出文件")
}

/// The message when ffmpeg ended without writing the output.
pub fn crop_output_missing_message() -> (r: String)
    ensures
        r@ == "ffmpeg 已退出,但没有生成输出文件(可能是时间范围超出文件时长)"@,
{
    String::from_str("ffmpeg 已退出,但没有生成输出文件(可能是时间范围超出文件时长)")
}


// ---------------------------------------------------------------------------
// Plan of the ffmpeg runs
// ---------------------------------------------------------------------------

/// The ffmpeg runs of a crop, in the order they are made.
#[derive(Clone, Debug)]
pub struct CropPlan {
    /// The cuts, one per segment, in the user's order.
    pub cuts: Vec<Vec<String>>,
    /// The join of the pieces, where there are several segments.
    pub join: Option<Vec<String>>,
    /// The concat list to write before the join (empty without a join).
    pub list: String,
}

/// The texts of a list of argument lists.
pub open spec fn arg_lists(v: Seq<Vec<String>>) -> Seq<Seq<Seq<char>>> {
    v.map_values(|a: Vec<String>| texts(a@))
}

/// The texts of a plan: cuts, join, concat list.
pub open spec fn plan_view(p: CropPlan) -> (Seq<Seq<Seq<char>>>, Option<Seq<Seq<char>>>, Seq<char>) {
    (
        arg_lists(p.cuts@),
        match p.join {
            Some(j) => Some(texts(j@)),
            None => None,
        },
        p.list@,
    )
}

/// The runs of a crop: one segment is cut straight into `output`, never
/// overwriting it; several segments are each cut into their piece file
/// (`pieces`, in order, overwriting leftovers), and the pieces are then joined
/// into `output` through the concat list written at `list_path`.
pub open spec fn crop_plan_spec(
    segs: Seq<CropSegment>,
    input: Seq<char>,
    output: Seq<char>,
    pieces: Seq<Seq<char>>,
    list_path: Seq<char>,
) -> (Seq<Seq<Seq<char>>>, Option<Seq<Seq<char>>>, Seq<char>) {
    if segs.len() == 1 {
        (seq![cut_args_spec(segs[0], input, output, false)], None, Seq::empty())
    } else {
        (
            Seq::new(segs.len(), |k: int| cut_args_spec(segs[k], input, pieces[k], true)),
            Some(concat_args_spec(list_path, output)),
            concat_list_spec(pieces),
        )
    }
}

/// Plans the ffmpeg runs of a crop (see `crop_plan_spec`); `pieces` names a
/// piece file per segment where there are several.
pub fn crop_plan(
    segments: &Vec<CropSegment>,
    input: &str,
    output: &str,
    pieces: &Vec<String>,
    list_path: &str,
) -> (r: CropPlan)
    requires
        segments@.len() == 1 || pieces@.len() == segments@.len(),
    ensures
        plan_view(r) == crop_plan_spec(segments@, input@, output@, texts(pieces@), list_path@),
{
    if segments.len() == 1 {
        let cut = cut_args(&segments[0], input, output, false);
        let ghost c = texts(cut@);
        let mut cuts: Vec<Vec<String>> = Vec::new();
        cuts.push(cut);
        let r = CropPlan { cuts, join: None, list: String::new() };
        assert(arg_lists(r.cuts@) =~= seq![c]);
        assert(r.list@ =~= Seq::<char>::empty());
        return r;
    }
    let mut cuts: Vec<Vec<String>> = Vec::new();
    let mut k: usize = 0;
    while k < segments.len()
        invariant
            k <= segments@.len() == pieces@.len(),
            arg_lists(cuts@) == Seq::new(
                k as nat,
                |j: int| cut_args_spec(segments@[j], input@, texts(pieces@)[j], true),
            ),
        decreases segments.len() - k,
    {
        let ghost before = cuts@;
        let cut = cut_args(&segments[k], input, pieces[k].as_str(), true);
        let ghost c = texts(cut@);
        cuts.push(cut);
        assert(arg_lists(cuts@) =~= arg_lists(before).push(c));
        k += 1;
        assert(arg_lists(cuts@) =~= Seq::new(
            k as nat,
            |j: int| cut_args_spec(segments@[j], input@, texts(pieces@)[j], true),
        ));
    }
    let join = concat_args(list_path, output);
    let list = concat_list(pieces);
    CropPlan { cuts, join: Some(join), list }
}

/// The message when cut `k` of `plan` failed: that of the single cut, or of
/// the piece `k`.
pub fn plan_cut_failed_message(plan: &CropPlan, k: usize, stderr: &str) -> (r: String)
    requires
        k < usize::MAX,
    ensures
        plan.join is None ==> r@ == "裁剪失败:"@ + useful_error(stderr@),
        plan.join is Some ==> r@ == segment_label(k as nat) + " 裁剪失败:"@ + useful_error(stderr@),
{
    if plan.join.is_none() {
        cut_failed_message(stderr)
    } else {
        piece_failed_message(k, stderr)
    }
}

// ---------------------------------------------------------------------------
// Laws
// ---------------------------------------------------------------------------

/// `strip_dots_spaces` keeps `s` up to its last character that is neither a
/// dot nor a space.
pub proof fn lemma_strip_dots_spaces(s: Seq<char>) -> (k: int)
    ensures
        0 <= k <= s.len(),
        strip_dots_spaces(s) == s.subrange(0, k),
        forall|j: int| k <= j < s.len() ==> #[trigger] s[j] == '.' || s[j] == ' ',
        k > 0 ==> s[k - 1] != '.' && s[k - 1] != ' ',
    decreases s.len(),
{
    if s.len() > 0 && (s.last() == '.' || s.last() == ' ') {
        let k0 = lemma_strip_dots_spaces(s.drop_last());
        assert(s.drop_last().subrange(0, k0) =~= s.subrange(0, k0));
        assert forall|j: int| k0 <= j < s.len() implies #[trigger] s[j] == '.' || s[j] == ' ' by {
            if j < s.len() - 1 {
                assert(s[j] == s.drop_last()[j]);
            }
        }
        k0
    } else {
        assert(s.subrange(0, s.len() as int) =~= s);
        s.len() as int
    }
}

/// An accepted output name is not empty, at most 200 characters long, holds
/// no `/`, `\` or `:`, does not start with white space and does not end with
/// a dot or a space: it can be neither `.` nor `..` and cannot lead into
/// another folder.
pub proof fn lemma_accepted_output_name(raw: Seq<char>)
    ensures
        output_name_result(raw) matches Ok(n) ==> {
            &&& 0 < n.len() <= 200
            &&& !n.contains('/') && !n.contains('\\') && !n.contains(':')
            &&& !is_white_space(n[0])
            &&& n.last() != '.' && n.last() != ' '
        },
{
    let t = trim(raw);
    let (a, b) = lemma_trim(raw);
    let k = lemma_strip_dots_spaces(t);
    if k > 0 {
        assert(t[0] == raw[a]);
        assert(cleaned_output_name(raw)[0] == t[0]);
    }
}

/// A name made of dots and spaces only is refused as empty.
pub proof fn lemma_dots_and_spaces_refused(raw: Seq<char>)
    requires
        forall|j: int| 0 <= j < raw.len() ==> #[trigger] raw[j] == '.' || raw[j] == ' ',
    ensures
        output_name_result(raw) == Err::<Seq<char>, Seq<char>>("请填写输出文件名(不含扩展名)"@),
{
    let (a, b) = lemma_trim(raw);
    let t = trim(raw);
    let k = lemma_strip_dots_spaces(t);
    if k > 0 {
        assert(t[k - 1] == raw[a + k - 1]);
    }
}

/// Checking an accepted name again accepts it unchanged, unless it ends with
/// white space other than a space (which the first check keeps when it stood
/// before trailing dots, as in `a\t.`).
pub proof fn lemma_output_name_stable(raw: Seq<char>)
    ensures
        output_name_result(raw) matches Ok(n) ==> (!is_white_space(n.last()) ==> output_name_result(n)
            == Ok::<Seq<char>, Seq<char>>(n)),
{
    lemma_accepted_output_name(raw);
    if let Ok(n) = output_name_result(raw) {
        if !is_white_space(n.last()) {
            lemma_trim_unchanged(n);
            assert(strip_dots_spaces(n) == n);
        }
    }
}

/// Every segment of an accepted crop request has a start or an end, a finite
/// end after zero, a start not before zero, and, where both are numbers, a
/// start before its end.
pub proof fn lemma_accepted_segments(name: Seq<char>, segs: Seq<CropSegment>)
    ensures
        crop_request_result(name, segs) is Ok ==> {
            &&& segs.len() > 0
            &&& forall|k: int|
                0 <= k < segs.len() ==> {
                    let s = #[trigger] segs[k];
                    &&& (s.start is Some || s.end is Some)
                    &&& (s.end matches Some(e) ==> e.finite && is_after_zero(e))
                    &&& (s.start matches Some(st) ==> !is_before_zero(st))
                    &&& (s.start is Some && s.end is Some ==> !not_before(s.start->0, s.end->0))
                }
        },
{
    if crop_request_result(name, segs) is Ok {
        assert forall|k: int| 0 <= k < segs.len() implies {
            let s = #[trigger] segs[k];
            &&& (s.start is Some || s.end is Some)
            &&& (s.end matches Some(e) ==> e.finite && is_after_zero(e))
            &&& (s.start matches Some(st) ==> !is_before_zero(st))
            &&& (s.start is Some && s.end is Some ==> !not_before(s.start->0, s.end->0))
        } by {
            lemma_no_segment_error(segs, 0, k);
        }
    }
}

/// Where no error is found from position `from` on, no segment from there
/// has one.
proof fn lemma_no_segment_error(segs: Seq<CropSegment>, from: int, k: int)
    requires
        0 <= from <= k < segs.len(),
        first_segment_error(segs, from) is None,
    ensures
        segment_error(k as nat, segs[k]) is None,
    decreases k - from,
{
    if from < k {
        lemma_no_segment_error(segs, from + 1, k);
    }
}

/// An output name is accepted exactly when, once surrounding white space and
/// then trailing dots and spaces are taken off, it is not empty, not `.` or
/// `..`, holds no `/`, `\` or `:`, and has at most 200 characters; it is
/// then accepted as that tidied name.
pub proof fn lemma_output_name_accepted_exactly(raw: Seq<char>)
    ensures
        ({
            let n = strip_dots_spaces(trim(raw));
            output_name_result(raw) is Ok <==> {
                &&& 0 < n.len() <= 200
                &&& n != "."@ && n != ".."@
                &&& !n.contains('/') && !n.contains('\\') && !n.contains(':')
            }
        }),
        output_name_result(raw) is Ok ==> output_name_result(raw) == Ok::<Seq<char>, Seq<char>>(
            strip_dots_spaces(trim(raw)),
        ),
{
}

/// A segment is refused exactly when it has neither a start nor an end, an
/// end that is not a finite time after zero, a start not before its end, or
/// a start before zero: a start alone, or an end alone, within those bounds
/// is accepted.
pub proof fn lemma_segment_refused_exactly(k: nat, seg: CropSegment)
    ensures
        segment_error(k, seg) is None <==> {
            &&& (seg.start is Some || seg.end is Some)
            &&& (seg.end matches Some(e) ==> e.finite && is_after_zero(e))
            &&& (seg.start matches Some(s) ==> !is_before_zero(s))
            &&& (seg.start is Some && seg.end is Some ==> !not_before(seg.start->0, seg.end->0))
        },
{
}

/// Where no segment from position `from` on has an error, none is found.
proof fn lemma_segments_all_fine(segs: Seq<CropSegment>, from: int)
    requires
        0 <= from,
        forall|k: int| from <= k < segs.len() ==> (#[trigger] segment_error(k as nat, segs[k])) is None,
    ensures
        first_segment_error(segs, from) is None,
    decreases segs.len() - from,
{
    if from < segs.len() {
        assert(segment_error(from as nat, segs[from]) is None);
        lemma_segments_all_fine(segs, from + 1);
    }
}

/// A crop request is accepted exactly when its output name is accepted,
/// it has a segment, and none of its segments is refused; it then gives the
/// output name as it is used.
pub proof fn lemma_request_accepted_exactly(name: Seq<char>, segs: Seq<CropSegment>)
    ensures
        crop_request_result(name, segs) is Ok <==> {
            &&& output_name_result(name) is Ok
            &&& segs.len() > 0
            &&& forall|k: int| 0 <= k < segs.len() ==> (#[trigger] segment_error(k as nat, segs[k])) is None
        },
        crop_request_result(name, segs) is Ok ==> crop_request_result(name, segs) == output_name_result(name),
{
    if crop_request_result(name, segs) is Ok {
        assert forall|k: int| 0 <= k < segs.len() implies (#[trigger] segment_error(k as nat, segs[k])) is None by {
            lemma_no_segment_error(segs, 0, k);
        }
    }
    if forall|k: int| 0 <= k < segs.len() ==> (#[trigger] segment_error(k as nat, segs[k])) is None {
        lemma_segments_all_fine(segs, 0);
    }
}

/// The concat list of `pieces` is one line `file '<piece>'` per piece, in
/// order.
proof fn lemma_concat_list_lines(pieces: Seq<Seq<char>>)
    ensures
        concat_list_spec(pieces) == Seq::new(pieces.len(), |k: int| "file '"@ + pieces[k] + "'\n"@).flatten(),
    decreases pieces.len(),
{
    let lines = Seq::new(pieces.len(), |k: int| "file '"@ + pieces[k] + "'\n"@);
    if pieces.len() == 0 {
        assert(lines =~= Seq::<Seq<char>>::empty());
    } else {
        let init = pieces.drop_last();
        lemma_concat_list_lines(init);
        let lines0 = Seq::new(init.len(), |k: int| "file '"@ + init[k] + "'\n"@);
        assert(lines =~= lines0.push("file '"@ + pieces.last() + "'\n"@));
        lines0.lemma_flatten_push("file '"@ + pieces.last() + "'\n"@);
        assert(concat_list_spec(pieces) =~= lines0.flatten() + ("file '"@ + pieces.last() + "'\n"@));
    }
}

/// A crop of one segment cuts it straight into the output, without
/// overwriting, and joins nothing. A crop of several segments cuts every
/// segment, in order, from the input into its own piece (overwriting a
/// leftover), then joins into the output, from the list file, a concat list
/// that names every piece once, in segment order.
pub proof fn lemma_plan_covers_every_segment(
    segs: Seq<CropSegment>,
    input: Seq<char>,
    output: Seq<char>,
    pieces: Seq<Seq<char>>,
    list_path: Seq<char>,
)
    requires
        segs.len() == 1 || pieces.len() == segs.len(),
    ensures
        segs.len() == 1 ==> crop_plan_spec(segs, input, output, pieces, list_path) == (
            seq![cut_args_spec(segs[0], input, output, false)],
            None::<Seq<Seq<char>>>,
            Seq::<char>::empty(),
        ),
        segs.len() != 1 ==> {
            let p = crop_plan_spec(segs, input, output, pieces, list_path);
            &&& p.0.len() == segs.len()
            &&& forall|k: int|
                0 <= k < segs.len() ==> {
                    &&& #[trigger] p.0[k] == cut_args_spec(segs[k], input, pieces[k], true)
                    &&& p.0[k].last() == pieces[k]
                }
            &&& p.1 == Some(concat_args_spec(list_path, output))
            &&& p.1->0.last() == output
            &&& p.2 == Seq::new(pieces.len(), |k: int| "file '"@ + pieces[k] + "'\n"@).flatten()
        },
{
    if segs.len() != 1 {
        lemma_concat_list_lines(pieces);
    }
}

} // verus!
