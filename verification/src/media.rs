use vstd::prelude::*;

use crate::text::{
    chars_of, decimal, digit, digit_char, is_ascii_text, find_char, lower_ascii_of, ascii_alphanumeric, all_ascii_alphanumeric,
    opt_str, opt_text, push_decimal, push_signed_decimal, same_text, signed_decimal,
    to_lower_ascii, to_upper_ascii, trim, trim_bounds, trim_range, trim_text, upper_ascii, upper_ascii_of,
};
use crate::ffmpeg::first_index;
use crate::paths::{final_name, has_portable_extension, is_extension_of, name_extension, plain_path_parts};

verus! {

// ---------------------------------------------------------------------------
// Probe data
// ---------------------------------------------------------------------------

/// One stream of a probed file, as the report needs it. Numbers that the
/// report shows as measured quantities arrive already written out
/// (`frame_rate_text` such as `30 fps`, `bit_rate_text` such as `8.5 Mbps`),
/// where the probe gave a usable value.
#[derive(Clone, Debug)]
pub struct StreamSection {
    pub codec_type: Option<String>,
    pub codec_name: Option<String>,
    pub codec_long_name: Option<String>,
    pub width: Option<i64>,
    pub height: Option<i64>,
    pub frame_rate_text: Option<String>,
    pub bit_rate_text: Option<String>,
    pub sample_rate: Option<String>,
    pub channels: Option<i64>,
    pub channel_layout: Option<String>,
}

/// The container of a probed file. As for streams, the size, duration and
/// total bit rate arrive written out (such as `1.2 GB`, `1:23:45`,
/// `320 kbps`), where the probe gave a usable value.
#[derive(Clone, Debug)]
pub struct FormatSection {
    pub format_name: Option<String>,
    pub size_text: Option<String>,
    pub duration_text: Option<String>,
    pub bit_rate_text: Option<String>,
}

/// What the probe found in a file.
#[derive(Clone, Debug)]
pub struct FfprobeOutput {
    pub streams: Vec<StreamSection>,
    pub format: FormatSection,
}

/// One line of the report: a label and its value.
#[derive(Clone, Debug)]
pub struct InfoItem {
    pub label: String,
    pub value: String,
}

impl View for InfoItem {
    type V = (Seq<char>, Seq<char>);

    open spec fn view(&self) -> (Seq<char>, Seq<char>) {
        (self.label@, self.value@)
    }
}

/// A titled group of report lines.
#[derive(Clone, Debug)]
pub struct InfoSection {
    pub title: String,
    pub items: Vec<InfoItem>,
}

/// The texts of report lines.
pub open spec fn item_views(v: Seq<InfoItem>) -> Seq<(Seq<char>, Seq<char>)> {
    v.map_values(|i: InfoItem| i@)
}

impl View for InfoSection {
    type V = (Seq<char>, Seq<(Seq<char>, Seq<char>)>);

    open spec fn view(&self) -> (Seq<char>, Seq<(Seq<char>, Seq<char>)>) {
        (self.title@, item_views(self.items@))
    }
}

/// A report line.
pub fn item(label: &str, value: String) -> (r: InfoItem)
    ensures
        r@ == (label@, value@),
{
    InfoItem { label: String::from_str(label), value }
}

fn push_item(items: &mut Vec<InfoItem>, label: &str, value: String)
    ensures
        item_views(final(items)@) == item_views(old(items)@).push((label@, value@)),
{
    items.push(item(label, value));
    assert(item_views(items@) =~= item_views(old(items)@).push((label@, value@)));
}

// ---------------------------------------------------------------------------
// Codec
// ---------------------------------------------------------------------------

// What `str::to_uppercase` gives for `s` (Unicode upper case).
pub uninterp spec fn unicode_uppercase(s: Seq<char>) -> Seq<char>;

/// Calls `str::to_uppercase`. Claimed: the result depends on the text alone
/// (it is named `unicode_uppercase`), and on ASCII text it is ASCII
/// upper-casing (`a`-`z` become `A`-`Z`, all else stays); what the Unicode
/// mapping does beyond ASCII is not stated.
#[verifier::external_body]
fn to_uppercase(s: &str) -> (r: String)
    ensures
        r@ == unicode_uppercase(s@),
        is_ascii_text(s@) ==> r@ == to_upper_ascii(s@),
{
    s.to_uppercase()
}

/// The usual written form of well-known codec names.
pub open spec fn codec_alias_spec(n: Seq<char>) -> Option<Seq<char>> {
    if n == "h264"@ {
        Some("H.264"@)
    } else if n == "h265"@ {
        Some("HEVC"@)
    } else if n == "hevc"@ {
        Some("HEVC"@)
    } else if n == "vp8"@ {
        Some("VP8"@)
    } else if n == "vp9"@ {
        Some("VP9"@)
    } else if n == "av1"@ {
        Some("AV1"@)
    } else if n == "mpeg4"@ {
        Some("MPEG-4"@)
    } else if n == "mpeg2video"@ {
        Some("MPEG-2"@)
    } else if n == "mpeg1video"@ {
        Some("MPEG-1"@)
    } else if n == "theora"@ {
        Some("Theora"@)
    } else if n == "prores"@ {
        Some("ProRes"@)
    } else if n == "dnxhr"@ {
        Some("DNxHR"@)
    } else if n == "aac"@ {
        Some("AAC"@)
    } else if n == "mp3"@ {
        Some("MP3"@)
    } else if n == "flac"@ {
        Some("FLAC"@)
    } else if n == "alac"@ {
        Some("ALAC"@)
    } else if n == "opus"@ {
        Some("Opus"@)
    } else if n == "vorbis"@ {
        Some("Vorbis"@)
    } else if n == "pcm_s16le"@ {
        Some("PCM 16-bit"@)
    } else if n == "pcm_s24le"@ {
        Some("PCM 24-bit"@)
    } else if n == "pcm_f32le"@ {
        Some("PCM 32-bit float"@)
    } else if n == "ac3"@ {
        Some("AC-3"@)
    } else if n == "eac3"@ {
        Some("E-AC-3"@)
    } else if n == "dts"@ {
        Some("DTS"@)
    } else if n == "truehd"@ {
        Some("TrueHD"@)
    } else if n == "amr_nb"@ {
        Some("AMR-NB"@)
    } else {
        None
    }
}

/// The usual written form of a well-known codec name.
pub fn codec_alias(name: &str) -> (r: Option<&'static str>)
    ensures
        match r {
            Some(m) => codec_alias_spec(name@) == Some(m@),
            None => codec_alias_spec(name@) is None,
        },
{
    if same_text(name, "h264") {
        return Some("H.264");
    }
    if same_text(name, "h265") {
        return Some("HEVC");
    }
    if same_text(name, "hevc") {
        return Some("HEVC");
    }
    if same_text(name, "vp8") {
        return Some("VP8");
    }
    if same_text(name, "vp9") {
        return Some("VP9");
    }
    if same_text(name, "av1") {
        return Some("AV1");
    }
    if same_text(name, "mpeg4") {
        return Some("MPEG-4");
    }
    if same_text(name, "mpeg2video") {
        return Some("MPEG-2");
    }
    if same_text(name, "mpeg1video") {
        return Some("MPEG-1");
    }
    if same_text(name, "theora") {
        return Some("Theora");
    }
    if same_text(name, "prores") {
        return Some("ProRes");
    }
    if same_text(name, "dnxhr") {
        return Some("DNxHR");
    }
    if same_text(name, "aac") {
        return Some("AAC");
    }
    if same_text(name, "mp3") {
        return Some("MP3");
    }
    if same_text(name, "flac") {
        return Some("FLAC");
    }
    if same_text(name, "alac") {
        return Some("ALAC");
    }
    if same_text(name, "opus") {
        return Some("Opus");
    }
    if same_text(name, "vorbis") {
        return Some("Vorbis");
    }
    if same_text(name, "pcm_s16le") {
        return Some("PCM 16-bit");
    }
    if same_text(name, "pcm_s24le") {
        return Some("PCM 24-bit");
    }
    if same_text(name, "pcm_f32le") {
        return Some("PCM 32-bit float");
    }
    if same_text(name, "ac3") {
        return Some("AC-3");
    }
    if same_text(name, "eac3") {
        return Some("E-AC-3");
    }
    if same_text(name, "dts") {
        return Some("DTS");
    }
    if same_text(name, "truehd") {
        return Some("TrueHD");
    }
    if same_text(name, "amr_nb") {
        return Some("AMR-NB");
    }
    None
}

/// How a stream's codec is shown: the usual name of a well-known codec,
/// followed by its long name in brackets where there is a non-blank one;
/// other codec names in upper case; `未知` where there is none.
pub open spec fn codec_display_spec(name: Option<Seq<char>>, long_name: Option<Seq<char>>) -> Seq<char> {
    match name {
        None => "未知"@,
        Some(n) => match codec_alias_spec(n) {
            None => unicode_uppercase(n),
            Some(m) => if long_name matches Some(l) && trim(l).len() > 0 {
                m + "("@ + trim(long_name->0) + ")"@
            } else {
                m
            },
        },
    }
}

/// How the codec of stream `s` is shown (see `codec_display_spec`).
pub fn codec_display(s: &StreamSection) -> (r: String)
    ensures
        r@ == codec_display_spec(opt_text(s.codec_name), opt_text(s.codec_long_name)),
        s.codec_name matches Some(n) ==> (codec_alias_spec(n@) is None && is_ascii_text(n@)
            ==> r@ == to_upper_ascii(n@)),
{
    let name = match &s.codec_name {
        None => return String::from_str("未知"),
        Some(n) => n.as_str(),
    };
    let mapped = match codec_alias(name) {
        None => return to_uppercase(name),
        Some(m) => m,
    };
    if let Some(long) = &s.codec_long_name {
        let l = trim_text(long.as_str());
        if !l.as_str().is_empty() {
            let mut r = String::from_str(mapped);
            r.append("(");
            r.append(l.as_str());
            r.append(")");
            return r;
        }
    }
    String::from_str(mapped)
}


// ---------------------------------------------------------------------------
// Channels
// ---------------------------------------------------------------------------

/// The shown name of a channel layout: common layouts in words, the usual
/// surround layouts as given, others without surrounding white space; none
/// where the layout is missing or blank.
pub open spec fn layout_label_spec(layout: Option<Seq<char>>) -> Option<Seq<char>> {
    match layout {
        None => None,
        Some(l) => {
            let t = trim(l);
            if t == "mono"@ {
                Some("单声道"@)
            } else if t == "stereo"@ {
                Some("立体声"@)
            } else if t == "quad"@ || t == "quad(side)"@ {
                Some("四声道"@)
            } else if t == "5.1"@ || t == "5.1(side)"@ || t == "6.1"@ || t == "7.1"@ || t
                == "7.1(wide)"@ {
                Some(l)
            } else if t.len() > 0 {
                Some(t)
            } else {
                None
            }
        },
    }
}

fn layout_label(layout: &Option<String>) -> (r: Option<String>)
    ensures
        opt_text(r) == layout_label_spec(opt_text(*layout)),
{
    match layout {
        None => None,
        Some(l) => {
            let t = trim_text(l.as_str());
            let ts = t.as_str();
            if same_text(ts, "mono") {
                Some(String::from_str("单声道"))
            } else if same_text(ts, "stereo") {
                Some(String::from_str("立体声"))
            } else if same_text(ts, "quad") || same_text(ts, "quad(side)") {
                Some(String::from_str("四声道"))
            } else if same_text(ts, "5.1") || same_text(ts, "5.1(side)") || same_text(ts, "6.1")
                || same_text(ts, "7.1") || same_text(ts, "7.1(wide)") {
                Some(l.clone())
            } else if !ts.is_empty() {
                Some(t)
            } else {
                None
            }
        },
    }
}

/// How a stream's channels are shown: the channel count and the layout
/// name, whichever are known, or `未知`.
pub open spec fn channel_display_spec(channels: Option<i64>, layout: Option<Seq<char>>) -> Seq<char> {
    match (channels, layout_label_spec(layout)) {
        (Some(c), Some(l)) => signed_decimal(c as int) + " 声道 / "@ + l,
        (Some(c), None) => signed_decimal(c as int) + " 声道"@,
        (None, Some(l)) => l,
        (None, None) => "未知"@,
    }
}

/// How the channels of stream `s` are shown (see `channel_display_spec`).
pub fn channel_display(s: &StreamSection) -> (r: String)
    ensures
        r@ == channel_display_spec(s.channels, opt_text(s.channel_layout)),
{
    let layout = layout_label(&s.channel_layout);
    match (s.channels, layout) {
        (Some(c), Some(l)) => {
            let mut r = String::new();
            push_signed_decimal(&mut r, c);
            r.append(" 声道 / ");
            r.append(l.as_str());
            r
        },
        (Some(c), None) => {
            let mut r = String::new();
            push_signed_decimal(&mut r, c);
            r.append(" 声道");
            r
        },
        (None, Some(l)) => l,
        (None, None) => String::from_str("未知"),
    }
}

// ---------------------------------------------------------------------------
// Container
// ---------------------------------------------------------------------------

/// `s` up to its first `c`, or all of `s` where it holds no `c`.
pub open spec fn first_field(s: Seq<char>, c: char) -> Seq<char> {
    if s.contains(c) {
        s.subrange(0, first_index(s, c))
    } else {
        s
    }
}

/// The container format shown for a file with extension `ext` whose probe
/// named the format `format_name`. A short extension of ASCII letters and
/// digits (at most 5, after trimming) is taken, in upper case, as it names
/// the container the way users know it; otherwise the first of the probe's
/// comma-separated format names, in upper case; `未知` where there is none.
/// (Being ASCII, such an extension has as many bytes as characters, so the
/// limit of 5 is the same counted either way.)
pub open spec fn container_label_spec(ext: Option<Seq<char>>, format_name: Option<Seq<char>>) -> Seq<char> {
    let e = match ext {
        Some(x) => to_lower_ascii(trim(x)),
        None => Seq::empty(),
    };
    if 0 < e.len() <= 5 && all_ascii_alphanumeric(e) {
        to_upper_ascii(e)
    } else {
        match format_name {
            Some(f) => to_upper_ascii(trim(first_field(f, ','))),
            None => "未知"@,
        }
    }
}

/// The container format shown, given the file's extension (see
/// `container_label_spec`).
pub fn container_label(ext: Option<String>, format_name: Option<&str>) -> (r: String)
    ensures
        r@ == container_label_spec(opt_text(ext), opt_str(format_name)),
{
    let lowered: Vec<char> = match &ext {
        Some(x) => {
            let v = chars_of(x.as_str());
            let (a, b) = trim_bounds(&v);
            lower_ascii_of(&v, a, b)
        },
        None => Vec::new(),
    };
    assert(lowered@ == match opt_text(ext) {
        Some(x) => to_lower_ascii(trim(x)),
        None => Seq::<char>::empty(),
    });
    if lowered.len() > 0 && lowered.len() <= 5 && ascii_alphanumeric(&lowered) {
        return upper_ascii_of(&lowered, 0, lowered.len());
    }
    match format_name {
        Some(f) => {
            let v = chars_of(f);
            let end = match find_char(&v, 0, v.len(), ',') {
                Some(i) => {
                    assert(crate::ffmpeg::is_first_index(v@, ',', i as int));
                    assert(v@.contains(','));
                    assert(first_index(v@, ',') == i);
                    i
                },
                None => {
                    assert(!v@.contains(','));
                    v.len()
                },
            };
            assert(v@.subrange(0, end as int) == first_field(v@, ','));
            let (a, b) = trim_range(&v, 0, end);
            upper_ascii_of(&v, a, b)
        },
        None => String::from_str("未知"),
    }
}

/// The container format shown for the file at `path` whose probe named the
/// format `format_name` (see `container_label_spec`; the extension is the
/// one `Path::extension` gives).
pub fn container_name(path: &str, format_name: Option<&str>) -> (r: String)
    ensures
        exists|e: Option<Seq<char>>|
            (e matches Some(x) ==> is_extension_of(path@, x)) && r@ == container_label_spec(
                e,
                opt_str(format_name),
            ),
        plain_path_parts(path@) matches Some(parts) ==> r@ == container_label_spec(
            name_extension(parts.1),
            opt_str(format_name),
        ),
        has_portable_extension(path@) ==> r@ == container_label_spec(
            name_extension(final_name(path@)),
            opt_str(format_name),
        ),
{
    let ext = crate::paths::path_extension(path);
    let r = container_label(ext, format_name);
    assert(r@ == container_label_spec(opt_text(ext), opt_str(format_name)));
    r
}


// ---------------------------------------------------------------------------
// Report
// ---------------------------------------------------------------------------

/// Whether `s` is a stream of the kind `kind` (such as `video`).
pub open spec fn is_stream_of(s: StreamSection, kind: Seq<char>) -> bool {
    s.codec_type matches Some(t) && t@ == kind
}

/// The streams of kind `kind`, in order.
pub open spec fn streams_of(streams: Seq<StreamSection>, kind: Seq<char>) -> Seq<StreamSection> {
    streams.filter(|s: StreamSection| is_stream_of(s, kind))
}

/// The report line `label: value` where a value is present.
pub open spec fn optional_item(label: Seq<char>, value: Option<String>) -> Seq<(Seq<char>, Seq<char>)> {
    match value {
        Some(v) => seq![(label, v@)],
        None => Seq::empty(),
    }
}

/// The section about the file as a whole: size, duration, container (shown
/// and as the probe named it), and for files without video the total bit
/// rate.
pub open spec fn file_section_spec(ext: Option<Seq<char>>, f: FormatSection, audio_only: bool) -> (
    Seq<char>,
    Seq<(Seq<char>, Seq<char>)>,
) {
    (
        "文件信息"@,
        optional_item("文件大小"@, f.size_text) + optional_item("时长"@, f.duration_text) + seq![
            ("封装格式"@, container_label_spec(ext, opt_text(f.format_name))),
        ] + optional_item("原始格式标签"@, f.format_name) + (if audio_only {
            optional_item("总码率"@, f.bit_rate_text)
        } else {
            Seq::empty()
        }),
    )
}

/// The title of the `k`-th (0-based) of `count` streams of a kind: numbered
/// from 1 when there are several.
pub open spec fn stream_title(base: Seq<char>, k: nat, count: nat) -> Seq<char> {
    if count > 1 {
        base + seq![' '] + decimal(k + 1)
    } else {
        base
    }
}

/// The lines about a video stream: resolution, frame rate, bit rate, codec.
pub open spec fn video_items_spec(s: StreamSection) -> Seq<(Seq<char>, Seq<char>)> {
    (if s.width is Some && s.height is Some {
        seq![
            (
                "分辨率"@,
                signed_decimal(s.width->0 as int) + " × "@ + signed_decimal(s.height->0 as int),
            ),
        ]
    } else {
        Seq::empty()
    }) + optional_item("帧率"@, s.frame_rate_text) + optional_item("码率"@, s.bit_rate_text) + seq![
        ("编码器"@, codec_display_spec(opt_text(s.codec_name), opt_text(s.codec_long_name))),
    ]
}

/// The lines about an audio stream: codec, sample rate, channels, bit rate.
pub open spec fn audio_items_spec(s: StreamSection) -> Seq<(Seq<char>, Seq<char>)> {
    seq![("编码器"@, codec_display_spec(opt_text(s.codec_name), opt_text(s.codec_long_name)))]
        + (match s.sample_rate {
        Some(v) => seq![("采样率"@, v@ + " Hz"@)],
        None => Seq::empty(),
    }) + seq![("声道"@, channel_display_spec(s.channels, opt_text(s.channel_layout)))]
        + optional_item("码率"@, s.bit_rate_text)
}

pub open spec fn video_section_spec(k: nat, count: nat, s: StreamSection) -> (
    Seq<char>,
    Seq<(Seq<char>, Seq<char>)>,
) {
    (stream_title("视频流"@, k, count), video_items_spec(s))
}

pub open spec fn audio_section_spec(k: nat, count: nat, s: StreamSection) -> (
    Seq<char>,
    Seq<(Seq<char>, Seq<char>)>,
) {
    (stream_title("音频流"@, k, count), audio_items_spec(s))
}

/// The report on a probed file whose extension is `ext`: the file section,
/// then one section per video stream, then one per audio stream, each in
/// probe order; an error where there is neither video nor audio.
pub open spec fn report_spec(ext: Option<Seq<char>>, p: FfprobeOutput) -> Result<
    Seq<(Seq<char>, Seq<(Seq<char>, Seq<char>)>)>,
    Seq<char>,
> {
    let v = streams_of(p.streams@, "video"@);
    let a = streams_of(p.streams@, "audio"@);
    if v.len() == 0 && a.len() == 0 {
        Err("该文件中没有可识别的视频流或音频流"@)
    } else {
        Ok(
            seq![file_section_spec(ext, p.format, v.len() == 0)] + Seq::new(
                v.len(),
                |k: int| video_section_spec(k as nat, v.len(), v[k]),
            ) + Seq::new(a.len(), |k: int| audio_section_spec(k as nat, a.len(), a[k])),
        )
    }
}

/// The texts of a report, or its error.
pub open spec fn report_result(r: Result<Vec<InfoSection>, String>) -> Result<
    Seq<(Seq<char>, Seq<(Seq<char>, Seq<char>)>)>,
    Seq<char>,
> {
    match r {
        Ok(v) => Ok(v@.map_values(|s: InfoSection| s@)),
        Err(e) => Err(e@),
    }
}

/// The positions of the streams of kind `kind`, in order.
fn stream_positions(streams: &Vec<StreamSection>, kind: &str) -> (r: Vec<usize>)
    ensures
        forall|j: int| 0 <= j < r@.len() ==> r@[j] < streams@.len(),
        r@.map_values(|k: usize| streams@[k as int]) == streams_of(streams@, kind@),
{
    let mut r: Vec<usize> = Vec::new();
    let mut i: usize = 0;
    assert(streams@.take(0) =~= Seq::<StreamSection>::empty());
    proof {
        reveal_with_fuel(Seq::<_>::filter, 1);
    }
    assert(r@.map_values(|k: usize| streams@[k as int]) =~= streams_of(streams@.take(0), kind@));
    while i < streams.len()
        invariant
            i <= streams@.len(),
            forall|j: int| 0 <= j < r@.len() ==> r@[j] < streams@.len(),
            r@.map_values(|k: usize| streams@[k as int]) == streams_of(streams@.take(i as int), kind@),
        decreases streams.len() - i,
    {
        let ghost before = r@;
        let is_kind = match &streams[i].codec_type {
            Some(t) => same_text(t.as_str(), kind),
            None => false,
        };
        proof {
            reveal_with_fuel(Seq::<_>::filter, 1);
            assert(streams@.take(i + 1).drop_last() =~= streams@.take(i as int));
            assert(streams@.take(i + 1).last() == streams@[i as int]);
            assert(is_kind == is_stream_of(streams@[i as int], kind@));
        }
        if is_kind {
            r.push(i);
            assert(r@.map_values(|k: usize| streams@[k as int]) =~= before.map_values(
                |k: usize| streams@[k as int],
            ).push(streams@[i as int]));
        }
        i += 1;
    }
    assert(streams@.take(streams@.len() as int) =~= streams@);
    r
}


fn push_optional_item(items: &mut Vec<InfoItem>, label: &str, value: &Option<String>)
    ensures
        item_views(final(items)@) == item_views(old(items)@) + optional_item(label@, *value),
{
    match value {
        Some(v) => {
            push_item(items, label, v.clone());
        },
        None => {},
    }
    assert(item_views(items@) =~= item_views(old(items)@) + optional_item(label@, *value));
}

fn file_section(ext: Option<String>, f: &FormatSection, audio_only: bool) -> (r: InfoSection)
    ensures
        r@ == file_section_spec(opt_text(ext), *f, audio_only),
{
    let mut items: Vec<InfoItem> = Vec::new();
    push_optional_item(&mut items, "文件大小", &f.size_text);
    push_optional_item(&mut items, "时长", &f.duration_text);
    let format_name: Option<&str> = match &f.format_name {
        Some(n) => Some(n.as_str()),
        None => None,
    };
    let label = container_label(ext, format_name);
    assert(opt_str(format_name) == opt_text(f.format_name));
    push_item(&mut items, "封装格式", label);
    push_optional_item(&mut items, "原始格式标签", &f.format_name);
    if audio_only {
        push_optional_item(&mut items, "总码率", &f.bit_rate_text);
    }
    let r = InfoSection { title: String::from_str("文件信息"), items };
    assert(r@.1 =~= file_section_spec(opt_text(ext), *f, audio_only).1);
    r
}

fn stream_title_text(base: &str, k: usize, count: usize) -> (r: String)
    requires
        k < count,
    ensures
        r@ == stream_title(base@, k as nat, count as nat),
{
    let mut t = String::from_str(base);
    if count > 1 {
        t.push(' ');
        push_decimal(&mut t, (k + 1) as u64);
    }
    assert(t@ =~= stream_title(base@, k as nat, count as nat));
    t
}

fn video_section(k: usize, count: usize, s: &StreamSection) -> (r: InfoSection)
    requires
        k < count,
    ensures
        r@ == video_section_spec(k as nat, count as nat, *s),
{
    let mut items: Vec<InfoItem> = Vec::new();
    if let (Some(w), Some(h)) = (s.width, s.height) {
        let mut v = String::new();
        push_signed_decimal(&mut v, w);
        v.append(" × ");
        push_signed_decimal(&mut v, h);
        push_item(&mut items, "分辨率", v);
    }
    push_optional_item(&mut items, "帧率", &s.frame_rate_text);
    push_optional_item(&mut items, "码率", &s.bit_rate_text);
    push_item(&mut items, "编码器", codec_display(s));
    let r = InfoSection { title: stream_title_text("视频流", k, count), items };
    assert(r@.1 =~= video_items_spec(*s));
    r
}

fn audio_section(k: usize, count: usize, s: &StreamSection) -> (r: InfoSection)
    requires
        k < count,
    ensures
        r@ == audio_section_spec(k as nat, count as nat, *s),
{
    let mut items: Vec<InfoItem> = Vec::new();
    push_item(&mut items, "编码器", codec_display(s));
    if let Some(v) = &s.sample_rate {
        let mut t = v.clone();
        t.append(" Hz");
        push_item(&mut items, "采样率", t);
    }
    push_item(&mut items, "声道", channel_display(s));
    push_optional_item(&mut items, "码率", &s.bit_rate_text);
    let r = InfoSection { title: stream_title_text("音频流", k, count), items };
    assert(r@.1 =~= audio_items_spec(*s));
    r
}

/// The report on a probed file, given the file's extension (see
/// `report_spec`).
pub fn build_sections_for(ext: Option<String>, parsed: &FfprobeOutput) -> (r: Result<
    Vec<InfoSection>,
    String,
>)
    ensures
        report_result(r) == report_spec(opt_text(ext), *parsed),
{
    let streams = &parsed.streams;
    let videos = stream_positions(streams, "video");
    let audios = stream_positions(streams, "audio");
    let ghost vs = streams_of(streams@, "video"@);
    let ghost aus = streams_of(streams@, "audio"@);
    if videos.len() == 0 && audios.len() == 0 {
        return Err(String::from_str("该文件中没有可识别的视频流或音频流"));
    }
    let nv = videos.len();
    let na = audios.len();
    let mut sections: Vec<InfoSection> = Vec::new();
    let ghost first = file_section_spec(opt_text(ext), parsed.format, nv == 0);
    sections.push(file_section(ext, &parsed.format, nv == 0));
    let mut j: usize = 0;
    assert(sections@.map_values(|s: InfoSection| s@) =~= seq![first] + Seq::new(
        0,
        |k: int| video_section_spec(k as nat, nv as nat, vs[k]),
    ));
    while j < nv
        invariant
            j <= nv == videos@.len() == vs.len(),
            vs == streams_of(streams@, "video"@),
            forall|q: int| 0 <= q < videos@.len() ==> videos@[q] < streams@.len(),
            videos@.map_values(|k: usize| streams@[k as int]) == vs,
            sections@.map_values(|s: InfoSection| s@) == seq![first] + Seq::new(
                j as nat,
                |k: int| video_section_spec(k as nat, nv as nat, vs[k]),
            ),
        decreases nv - j,
    {
        let ghost before = sections@;
        assert(vs[j as int] == streams@[videos@[j as int] as int]);
        let sec = video_section(j, nv, &streams[videos[j]]);
        let ghost sv = sec@;
        sections.push(sec);
        assert(sections@.map_values(|s: InfoSection| s@) =~= before.map_values(
            |s: InfoSection| s@,
        ).push(sv));
        j += 1;
        assert(sections@.map_values(|s: InfoSection| s@) =~= seq![first] + Seq::new(
            j as nat,
            |k: int| video_section_spec(k as nat, nv as nat, vs[k]),
        ));
    }
    let ghost head = seq![first] + Seq::new(
        nv as nat,
        |k: int| video_section_spec(k as nat, nv as nat, vs[k]),
    );
    let mut j: usize = 0;
    assert(sections@.map_values(|s: InfoSection| s@) =~= head + Seq::new(
        0,
        |k: int| audio_section_spec(k as nat, na as nat, aus[k]),
    ));
    while j < na
        invariant
            j <= na == audios@.len() == aus.len(),
            aus == streams_of(streams@, "audio"@),
            forall|q: int| 0 <= q < audios@.len() ==> audios@[q] < streams@.len(),
            audios@.map_values(|k: usize| streams@[k as int]) == aus,
            sections@.map_values(|s: InfoSection| s@) == head + Seq::new(
                j as nat,
                |k: int| audio_section_spec(k as nat, na as nat, aus[k]),
            ),
        decreases na - j,
    {
        let ghost before = sections@;
        assert(aus[j as int] == streams@[audios@[j as int] as int]);
        let sec = audio_section(j, na, &streams[audios[j]]);
        let ghost sv = sec@;
        sections.push(sec);
        assert(sections@.map_values(|s: InfoSection| s@) =~= before.map_values(
            |s: InfoSection| s@,
        ).push(sv));
        j += 1;
        assert(sections@.map_values(|s: InfoSection| s@) =~= head + Seq::new(
            j as nat,
            |k: int| audio_section_spec(k as nat, na as nat, aus[k]),
        ));
    }
    Ok(sections)
}

/// Arranges what the probe found about the file at `path` into report
/// sections (see `report_spec`; the extension is the one `Path::extension`
/// gives).
pub fn build_sections(path: &str, parsed: &FfprobeOutput) -> (r: Result<Vec<InfoSection>, String>)
    ensures
        exists|e: Option<Seq<char>>|
            (e matches Some(x) ==> is_extension_of(path@, x)) && report_result(r) == report_spec(
                e,
                *parsed,
            ),
        plain_path_parts(path@) matches Some(parts) ==> report_result(r) == report_spec(
            name_extension(parts.1),
            *parsed,
        ),
        has_portable_extension(path@) ==> report_result(r) == report_spec(
            name_extension(final_name(path@)),
            *parsed,
        ),
{
    let ext = crate::paths::path_extension(path);
    let r = build_sections_for(ext, parsed);
    assert(report_result(r) == report_spec(opt_text(ext), *parsed));
    r
}


/// The message when a folder was given instead of a media file.
pub fn folder_given_message(path: &str) -> (r: String)
    ensures
        r@ == "这是一个文件夹,请拖入或选择媒体文件:"@ + path@,
{
    crate::text::prefixed("这是一个文件夹,请拖入或选择媒体文件:", path)
}

/// The message when the file to probe does not exist.
pub fn missing_file_message(path: &str) -> (r: String)
    ensures
        r@ == "文件不存在:"@ + path@,
{
    crate::text::prefixed("文件不存在:", path)
}


// ---------------------------------------------------------------------------
// Durations
// ---------------------------------------------------------------------------

/// A number below 100 with two digits.
pub open spec fn two_digits(v: nat) -> Seq<char> {
    seq![digit_char(v / 10), digit_char(v % 10)]
}

/// A duration in whole seconds as `h:mm:ss`.
pub open spec fn clock_spec(total: nat) -> Seq<char> {
    decimal(total / 3600) + seq![':'] + two_digits((total % 3600) / 60) + seq![':'] + two_digits(
        total % 60,
    )
}

/// Writes a duration in whole seconds as `h:mm:ss` (hours not limited).
pub fn clock_text(total: u64) -> (r: String)
    ensures
        r@ == clock_spec(total as nat),
{
    let m = (total % 3600) / 60;
    let s = total % 60;
    let mut r = String::new();
    push_decimal(&mut r, total / 3600);
    r.push(':');
    r.push(digit(m / 10));
    r.push(digit(m % 10));
    r.push(':');
    r.push(digit(s / 10));
    r.push(digit(s % 10));
    assert(r@ =~= clock_spec(total as nat));
    r
}

// ---------------------------------------------------------------------------
// Laws
// ---------------------------------------------------------------------------

/// A report is made exactly when the file has a video or an audio stream.
/// It then starts with the file section and holds one more section per
/// video stream and per audio stream; a file without video also shows its
/// total bit rate where known.
pub proof fn lemma_report_shape(ext: Option<Seq<char>>, p: FfprobeOutput)
    ensures
        report_spec(ext, p) is Ok <==> (streams_of(p.streams@, "video"@).len() > 0 || streams_of(
            p.streams@,
            "audio"@,
        ).len() > 0),
        report_spec(ext, p) matches Ok(s) ==> {
            &&& s.len() == 1 + streams_of(p.streams@, "video"@).len() + streams_of(
                p.streams@,
                "audio"@,
            ).len()
            &&& s[0].0 == "文件信息"@
            &&& (streams_of(p.streams@, "video"@).len() == 0 && p.format.bit_rate_text is Some)
                ==> s[0].1.last() == ("总码率"@, p.format.bit_rate_text->0@)
        },
{
}

/// The stream at position `i` of the probe is the `k`-th stream of its kind,
/// `k` being the number of streams of that kind before it.
proof fn lemma_kth_of_kind(streams: Seq<StreamSection>, kind: Seq<char>, i: int)
    requires
        0 <= i < streams.len(),
        is_stream_of(streams[i], kind),
    ensures
        streams_of(streams.take(i), kind).len() < streams_of(streams, kind).len(),
        streams_of(streams, kind)[streams_of(streams.take(i), kind).len() as int] == streams[i],
{
    let f = |s: StreamSection| is_stream_of(s, kind);
    assert(streams =~= streams.take(i + 1) + streams.skip(i + 1));
    Seq::filter_distributes_over_add(streams.take(i + 1), streams.skip(i + 1), f);
    assert(streams.take(i + 1) =~= streams.take(i).push(streams[i]));
    streams.take(i).lemma_filter_push(streams[i], f);
    assert(streams_of(streams.take(i + 1), kind) == streams_of(streams.take(i), kind).push(streams[i]));
}

/// Each video and each audio stream of the probe is described in a section
/// of its own, from its own data: the `k`-th video stream (`k` counting the
/// video streams before it) in the section right after the file section and
/// `k` others, the `k`-th audio stream after the file section, all video
/// sections and `k` audio sections; each under its kind's title, numbered
/// where there are several, with the codec among its lines.
pub proof fn lemma_report_describes_each_stream(ext: Option<Seq<char>>, p: FfprobeOutput, i: int)
    requires
        0 <= i < p.streams@.len(),
    ensures
        report_spec(ext, p) matches Ok(r) ==> {
            let st = p.streams@[i];
            let nv = streams_of(p.streams@, "video"@).len();
            let na = streams_of(p.streams@, "audio"@).len();
            let codec = ("编码器"@, codec_display_spec(opt_text(st.codec_name), opt_text(st.codec_long_name)));
            &&& is_stream_of(st, "video"@) ==> {
                let k = streams_of(p.streams@.take(i), "video"@).len();
                &&& r[1 + k as int] == (stream_title("视频流"@, k, nv), video_items_spec(st))
                &&& r[1 + k as int].1.last() == codec
            }
            &&& is_stream_of(st, "audio"@) ==> {
                let k = streams_of(p.streams@.take(i), "audio"@).len();
                &&& r[1 + nv + k as int] == (stream_title("音频流"@, k, na), audio_items_spec(st))
                &&& r[1 + nv + k as int].1[0] == codec
                &&& r[1 + nv + k as int].1.contains(("声道"@, channel_display_spec(st.channels, opt_text(st.channel_layout))))
            }
        },
{
    let st = p.streams@[i];
    if is_stream_of(st, "video"@) {
        lemma_kth_of_kind(p.streams@, "video"@, i);
    }
    if is_stream_of(st, "audio"@) {
        lemma_kth_of_kind(p.streams@, "audio"@, i);
        let items = audio_items_spec(st);
        let sr = match st.sample_rate {
            Some(v) => seq![("采样率"@, v@ + " Hz"@)],
            None => Seq::<(Seq<char>, Seq<char>)>::empty(),
        };
        assert(items[1 + sr.len() as int] == ("声道"@, channel_display_spec(st.channels, opt_text(st.channel_layout))));
    }
}

/// `s` in ASCII upper case, without the separators `.`, `-`, `_` and space.
pub open spec fn squeezed(s: Seq<char>) -> Seq<char>
    decreases s.len(),
{
    if s.len() == 0 {
        Seq::empty()
    } else if s[0] == '.' || s[0] == '-' || s[0] == '_' || s[0] == ' ' {
        squeezed(s.drop_first())
    } else {
        seq![upper_ascii(s[0])] + squeezed(s.drop_first())
    }
}

/// Whether `n` names a PCM codec `pcm_<x><bits>le` with two digits of bits.
pub open spec fn is_pcm_name(n: Seq<char>) -> bool {
    n.len() == 9 && n.subrange(0, 4) == "pcm_"@ && n.subrange(7, 9) == "le"@
}

/// The usual name of a well-known codec is that codec's own name: written in
/// upper case without `.`, `-`, `_` and spaces, the usual name and the codec
/// name agree (but for a `video` at the end of the codec name); `h265` is
/// shown as `hevc` is; a PCM codec `pcm_<x><bits>le` is shown as
/// `PCM <bits>-bit`, followed by ` float` where `x` is `f`.
#[verifier::rlimit(50)]
pub proof fn lemma_codec_alias_names_codec(n: Seq<char>)
    requires
        codec_alias_spec(n) is Some,
    ensures
        ({
            let m = codec_alias_spec(n)->0;
            &&& n == "h265"@ ==> codec_alias_spec(n) == codec_alias_spec("hevc"@)
            &&& is_pcm_name(n) ==> m == "PCM "@ + n.subrange(5, 7) + "-bit"@ + (if n[4] == 'f' {
                " float"@
            } else {
                Seq::empty()
            })
            &&& (n != "h265"@ && !is_pcm_name(n)) ==> (squeezed(m) == squeezed(n) || squeezed(m)
                + "VIDEO"@ == squeezed(n))
        }),
{
    reveal_strlit("h265");
    reveal_strlit("hevc");
    reveal_strlit("pcm_");
    reveal_strlit("le");
    reveal_strlit("VIDEO");
    reveal_strlit("PCM ");
    reveal_strlit("-bit");
    reveal_strlit(" float");
    reveal_with_fuel(squeezed, 17);
    reveal_strlit("h264");
    reveal_strlit("vp8");
    reveal_strlit("vp9");
    reveal_strlit("av1");
    reveal_strlit("mpeg4");
    reveal_strlit("mpeg2video");
    reveal_strlit("mpeg1video");
    reveal_strlit("theora");
    reveal_strlit("prores");
    reveal_strlit("dnxhr");
    reveal_strlit("aac");
    reveal_strlit("mp3");
    reveal_strlit("flac");
    reveal_strlit("alac");
    reveal_strlit("opus");
    reveal_strlit("vorbis");
    reveal_strlit("pcm_s16le");
    reveal_strlit("pcm_s24le");
    reveal_strlit("pcm_f32le");
    reveal_strlit("ac3");
    reveal_strlit("eac3");
    reveal_strlit("dts");
    reveal_strlit("truehd");
    reveal_strlit("amr_nb");
    if n == "h264"@ {
        assert(n[3] != "h265"@[3]);
        assert(codec_alias_spec(n) == Some("H.264"@));
        reveal_strlit("H.264");
        assert(!is_pcm_name(n));
        assert(squeezed("H.264"@) =~= squeezed(n));
    } else if n == "h265"@ {
        assert(!is_pcm_name(n));
        assert(codec_alias_spec(n) == Some("HEVC"@));
        assert("hevc"@[1] != "h264"@[1] && "hevc"@[1] != "h265"@[1]);
        assert(codec_alias_spec("hevc"@) == Some("HEVC"@));
    } else if n == "hevc"@ {
        assert(codec_alias_spec(n) == Some("HEVC"@));
        reveal_strlit("HEVC");
        assert(!is_pcm_name(n));
        assert(squeezed("HEVC"@) =~= squeezed(n));
    } else if n == "vp8"@ {
        assert(codec_alias_spec(n) == Some("VP8"@));
        reveal_strlit("VP8");
        assert(!is_pcm_name(n));
        assert(squeezed("VP8"@) =~= squeezed(n));
    } else if n == "vp9"@ {
        assert(codec_alias_spec(n) == Some("VP9"@));
        reveal_strlit("VP9");
        assert(!is_pcm_name(n));
        assert(squeezed("VP9"@) =~= squeezed(n));
    } else if n == "av1"@ {
        assert(codec_alias_spec(n) == Some("AV1"@));
        reveal_strlit("AV1");
        assert(!is_pcm_name(n));
        assert(squeezed("AV1"@) =~= squeezed(n));
    } else if n == "mpeg4"@ {
        assert(codec_alias_spec(n) == Some("MPEG-4"@));
        reveal_strlit("MPEG-4");
        assert(!is_pcm_name(n));
        assert(squeezed("MPEG-4"@) =~= squeezed(n));
    } else if n == "mpeg2video"@ {
        assert(codec_alias_spec(n) == Some("MPEG-2"@));
        reveal_strlit("MPEG-2");
        assert(!is_pcm_name(n));
        assert(squeezed("MPEG-2"@) + "VIDEO"@ =~= squeezed(n));
    } else if n == "mpeg1video"@ {
        assert(codec_alias_spec(n) == Some("MPEG-1"@));
        reveal_strlit("MPEG-1");
        assert(!is_pcm_name(n));
        assert(squeezed("MPEG-1"@) + "VIDEO"@ =~= squeezed(n));
    } else if n == "theora"@ {
        assert(codec_alias_spec(n) == Some("Theora"@));
        reveal_strlit("Theora");
        assert(!is_pcm_name(n));
        assert(squeezed("Theora"@) =~= squeezed(n));
    } else if n == "prores"@ {
        assert(codec_alias_spec(n) == Some("ProRes"@));
        reveal_strlit("ProRes");
        assert(!is_pcm_name(n));
        assert(squeezed("ProRes"@) =~= squeezed(n));
    } else if n == "dnxhr"@ {
        assert(codec_alias_spec(n) == Some("DNxHR"@));
        reveal_strlit("DNxHR");
        assert(!is_pcm_name(n));
        assert(squeezed("DNxHR"@) =~= squeezed(n));
    } else if n == "aac"@ {
        assert(codec_alias_spec(n) == Some("AAC"@));
        reveal_strlit("AAC");
        assert(!is_pcm_name(n));
        assert(squeezed("AAC"@) =~= squeezed(n));
    } else if n == "mp3"@ {
        assert(codec_alias_spec(n) == Some("MP3"@));
        reveal_strlit("MP3");
        assert(!is_pcm_name(n));
        assert(squeezed("MP3"@) =~= squeezed(n));
    } else if n == "flac"@ {
        assert(codec_alias_spec(n) == Some("FLAC"@));
        reveal_strlit("FLAC");
        assert(!is_pcm_name(n));
        assert(squeezed("FLAC"@) =~= squeezed(n));
    } else if n == "alac"@ {
        assert(codec_alias_spec(n) == Some("ALAC"@));
        reveal_strlit("ALAC");
        assert(!is_pcm_name(n));
        assert(squeezed("ALAC"@) =~= squeezed(n));
    } else if n == "opus"@ {
        assert(codec_alias_spec(n) == Some("Opus"@));
        reveal_strlit("Opus");
        assert(!is_pcm_name(n));
        assert(squeezed("Opus"@) =~= squeezed(n));
    } else if n == "vorbis"@ {
        assert(codec_alias_spec(n) == Some("Vorbis"@));
        reveal_strlit("Vorbis");
        assert(!is_pcm_name(n));
        assert(squeezed("Vorbis"@) =~= squeezed(n));
    } else if n == "pcm_s16le"@ {
        assert(codec_alias_spec(n) == Some("PCM 16-bit"@));
        reveal_strlit("PCM 16-bit");
        assert(n.subrange(0, 4) =~= "pcm_"@);
        assert(n.subrange(7, 9) =~= "le"@);
        assert("PCM 16-bit"@ =~= "PCM "@ + n.subrange(5, 7) + "-bit"@ + (if n[4] == 'f' {
            " float"@
        } else {
            Seq::empty()
        }));
    } else if n == "pcm_s24le"@ {
        assert(codec_alias_spec(n) == Some("PCM 24-bit"@));
        reveal_strlit("PCM 24-bit");
        assert(n.subrange(0, 4) =~= "pcm_"@);
        assert(n.subrange(7, 9) =~= "le"@);
        assert("PCM 24-bit"@ =~= "PCM "@ + n.subrange(5, 7) + "-bit"@ + (if n[4] == 'f' {
            " float"@
        } else {
            Seq::empty()
        }));
    } else if n == "pcm_f32le"@ {
        assert(codec_alias_spec(n) == Some("PCM 32-bit float"@));
        reveal_strlit("PCM 32-bit float");
        assert(n.subrange(0, 4) =~= "pcm_"@);
        assert(n.subrange(7, 9) =~= "le"@);
        assert("PCM 32-bit float"@ =~= "PCM "@ + n.subrange(5, 7) + "-bit"@ + (if n[4] == 'f' {
            " float"@
        } else {
            Seq::empty()
        }));
    } else if n == "ac3"@ {
        assert(codec_alias_spec(n) == Some("AC-3"@));
        reveal_strlit("AC-3");
        assert(!is_pcm_name(n));
        assert(squeezed("AC-3"@) =~= squeezed(n));
    } else if n == "eac3"@ {
        assert(codec_alias_spec(n) == Some("E-AC-3"@));
        reveal_strlit("E-AC-3");
        assert(!is_pcm_name(n));
        assert(squeezed("E-AC-3"@) =~= squeezed(n));
    } else if n == "dts"@ {
        assert(codec_alias_spec(n) == Some("DTS"@));
        reveal_strlit("DTS");
        assert(!is_pcm_name(n));
        assert(squeezed("DTS"@) =~= squeezed(n));
    } else if n == "truehd"@ {
        assert(codec_alias_spec(n) == Some("TrueHD"@));
        reveal_strlit("TrueHD");
        assert(!is_pcm_name(n));
        assert(squeezed("TrueHD"@) =~= squeezed(n));
    } else if n == "amr_nb"@ {
        assert(codec_alias_spec(n) == Some("AMR-NB"@));
        reveal_strlit("AMR-NB");
        assert(!is_pcm_name(n));
        assert(squeezed("AMR-NB"@) =~= squeezed(n));
    }
}

} // verus!
