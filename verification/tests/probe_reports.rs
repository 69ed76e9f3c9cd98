use mediatool::media::{
    build_sections, build_sections_for, clock_text, channel_display, codec_alias, codec_display,
    container_label, container_name, folder_given_message, item, missing_file_message,
    FfprobeOutput, FormatSection, InfoSection, StreamSection,
};

fn s(x: &str) -> Option<String> {
    Some(x.to_string())
}

fn stream(kind: &str) -> StreamSection {
    StreamSection {
        codec_type: s(kind),
        codec_name: None,
        codec_long_name: None,
        width: None,
        height: None,
        frame_rate_text: None,
        bit_rate_text: None,
        sample_rate: None,
        channels: None,
        channel_layout: None,
    }
}

fn format() -> FormatSection {
    FormatSection { format_name: None, size_text: None, duration_text: None, bit_rate_text: None }
}

fn pairs(sec: &InfoSection) -> Vec<(String, String)> {
    sec.items.iter().map(|i| (i.label.clone(), i.value.clone())).collect()
}

fn p(a: &str, b: &str) -> (String, String) {
    (a.to_string(), b.to_string())
}

#[test]
fn report_items() {
    let it = item("时长", "0:01:00".to_string());
    assert_eq!(it.label, "时长");
    assert_eq!(it.value, "0:01:00");
}

#[test]
fn codec_names() {
    assert_eq!(codec_alias("hevc"), Some("HEVC"));
    assert_eq!(codec_alias("h265"), Some("HEVC"));
    assert_eq!(codec_alias("pcm_f32le"), Some("PCM 32-bit float"));
    assert_eq!(codec_alias("H264"), None);
    let mut st = stream("video");
    assert_eq!(codec_display(&st), "未知");
    st.codec_name = s("h264");
    assert_eq!(codec_display(&st), "H.264");
    st.codec_long_name = s("  H.264 / AVC / MPEG-4 AVC / MPEG-4 part 10 ");
    assert_eq!(codec_display(&st), "H.264(H.264 / AVC / MPEG-4 AVC / MPEG-4 part 10)");
    st.codec_long_name = s("   ");
    assert_eq!(codec_display(&st), "H.264");
    st.codec_name = s("prores_ks");
    st.codec_long_name = s("Apple ProRes");
    assert_eq!(codec_display(&st), "PRORES_KS");
}

#[test]
fn channel_names() {
    let mut st = stream("audio");
    assert_eq!(channel_display(&st), "未知");
    st.channels = Some(2);
    assert_eq!(channel_display(&st), "2 声道");
    st.channel_layout = s(" stereo ");
    assert_eq!(channel_display(&st), "2 声道 / 立体声");
    st.channel_layout = s("quad(side)");
    assert_eq!(channel_display(&st), "2 声道 / 四声道");
    st.channels = Some(6);
    st.channel_layout = s(" 5.1(side)");
    assert_eq!(channel_display(&st), "6 声道 /  5.1(side)");
    st.channel_layout = s(" hexagonal ");
    assert_eq!(channel_display(&st), "6 声道 / hexagonal");
    st.channels = None;
    st.channel_layout = s("mono");
    assert_eq!(channel_display(&st), "单声道");
    st.channel_layout = s("  ");
    assert_eq!(channel_display(&st), "未知");
}

#[test]
fn container_names() {
    assert_eq!(container_name("/v/a.mp4", Some("mov,mp4,m4a,3gp,3g2,mj2")), "MP4");
    assert_eq!(container_name("/v/a.MkV", Some("matroska,webm")), "MKV");
    assert_eq!(container_name("/v/a.toolong", Some(" matroska ,webm")), "MATROSKA");
    assert_eq!(container_name("/v/a.m-v", Some("mpegts")), "MPEGTS");
    assert_eq!(container_name("/v/noext", None), "未知");
    assert_eq!(container_label(Some(" Ts ".to_string()), None), "TS");
    assert_eq!(container_label(None, Some("")), "");
}

#[test]
fn report_of_video_file() {
    let mut v1 = stream("video");
    v1.codec_name = s("h264");
    v1.width = Some(1920);
    v1.height = Some(1080);
    v1.frame_rate_text = s("30 fps");
    v1.bit_rate_text = s("8.50 Mbps");
    let mut v2 = stream("video");
    v2.codec_name = s("mjpeg");
    v2.width = Some(320);
    let mut a1 = stream("audio");
    a1.codec_name = s("aac");
    a1.sample_rate = s("48000");
    a1.channels = Some(2);
    a1.channel_layout = s("stereo");
    a1.bit_rate_text = s("128 kbps");
    let mut f = format();
    f.format_name = s("mov,mp4,m4a,3gp,3g2,mj2");
    f.size_text = s("1.2 GB");
    f.duration_text = s("1:23:45");
    f.bit_rate_text = s("9.00 Mbps");
    let parsed = FfprobeOutput { streams: vec![stream("data"), v1, a1, v2], format: f };
    let r = build_sections("/v/movie.mp4", &parsed).unwrap();
    assert_eq!(r.len(), 4);
    assert_eq!(r[0].title, "文件信息");
    assert_eq!(
        pairs(&r[0]),
        vec![
            p("文件大小", "1.2 GB"),
            p("时长", "1:23:45"),
            p("封装格式", "MP4"),
            p("原始格式标签", "mov,mp4,m4a,3gp,3g2,mj2"),
        ]
    );
    assert_eq!(r[1].title, "视频流 1");
    assert_eq!(
        pairs(&r[1]),
        vec![p("分辨率", "1920 × 1080"), p("帧率", "30 fps"), p("码率", "8.50 Mbps"), p("编码器", "H.264")]
    );
    assert_eq!(r[2].title, "视频流 2");
    assert_eq!(pairs(&r[2]), vec![p("编码器", "MJPEG")]);
    assert_eq!(r[3].title, "音频流");
    assert_eq!(
        pairs(&r[3]),
        vec![p("编码器", "AAC"), p("采样率", "48000 Hz"), p("声道", "2 声道 / 立体声"), p("码率", "128 kbps")]
    );
}

#[test]
fn report_of_audio_file_shows_total_bit_rate() {
    let mut a1 = stream("audio");
    a1.codec_name = s("flac");
    let mut a2 = stream("audio");
    a2.codec_name = s("opus");
    let mut f = format();
    f.bit_rate_text = s("320 kbps");
    let parsed = FfprobeOutput { streams: vec![a1, a2], format: f };
    let r = build_sections_for(Some("flac".to_string()), &parsed).unwrap();
    assert_eq!(r.len(), 3);
    assert_eq!(pairs(&r[0]), vec![p("封装格式", "FLAC"), p("总码率", "320 kbps")]);
    assert_eq!(r[1].title, "音频流 1");
    assert_eq!(pairs(&r[1]), vec![p("编码器", "FLAC"), p("声道", "未知")]);
    assert_eq!(r[2].title, "音频流 2");
}

#[test]
fn report_needs_video_or_audio() {
    let parsed = FfprobeOutput { streams: vec![stream("subtitle"), stream("data")], format: format() };
    let msg = "该文件中没有可识别的视频流或音频流".to_string();
    assert_eq!(build_sections("/v/a.srt", &parsed).unwrap_err(), msg);
    let empty = FfprobeOutput { streams: vec![], format: format() };
    assert_eq!(build_sections_for(None, &empty).unwrap_err(), msg);
}

#[test]
fn probe_messages() {
    assert_eq!(folder_given_message("/v"), "这是一个文件夹,请拖入或选择媒体文件:/v");
    assert_eq!(missing_file_message("/v/x"), "文件不存在:/v/x");
}

#[test]
fn durations_as_clock() {
    assert_eq!(clock_text(0), "0:00:00");
    assert_eq!(clock_text(1), "0:00:01");
    assert_eq!(clock_text(5025), "1:23:45");
    assert_eq!(clock_text(360_000), "100:00:00");
}

#[test]
fn ascii_codec_names_upper_cased() {
    let mut st = stream("audio");
    st.codec_name = s("wmav2");
    assert_eq!(codec_display(&st), "WMAV2");
    st.codec_name = s("ß-codec");
    assert_eq!(codec_display(&st), "SS-CODEC");
}

#[test]
fn report_container_line_comes_from_extension() {
    let mut f = format();
    f.format_name = s("mov,mp4,m4a,3gp,3g2,mj2");
    let parsed = FfprobeOutput { streams: vec![stream("audio")], format: f };
    let r = build_sections("clips/song.m4a", &parsed).unwrap();
    assert_eq!(pairs(&r[0])[0], p("封装格式", "M4A"));
    assert_eq!(pairs(&r[0])[0].1, container_name("clips/song.m4a", Some("mov,mp4,m4a,3gp,3g2,mj2")));
}

#[test]
fn windows_style_path_container() {
    assert_eq!(container_name("C:\\Users\\me\\song.flac", Some("flac")), "FLAC");
}
