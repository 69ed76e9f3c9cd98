use mediatool::paths::{
    containing_dir, dir_or_current, missing_input_message, missing_output_dir_message,
    output_extension, output_extension_from, requested_output_dir, source_stem, source_stem_from,
};
use mediatool::thumb::{
    check_thumb_source, has_video_stream, layout_for, thumb_args, thumb_failed_message,
    thumb_file_name, thumb_names_exhausted_message, thumb_output_missing_message,
    validate_thumb_count, video_filter,
};

#[test]
fn requested_folder_is_trimmed() {
    assert_eq!(requested_output_dir(Some("  /data/out ")), Some("/data/out".to_string()));
    assert_eq!(requested_output_dir(Some("   ")), None);
    assert_eq!(requested_output_dir(None), None);
}

#[test]
fn folder_of_the_source() {
    assert_eq!(containing_dir("/videos/a.mp4"), "/videos");
    assert_eq!(containing_dir("a.mp4"), ".");
    assert_eq!(containing_dir("/"), ".");
    assert_eq!(dir_or_current(Some(String::new())), ".");
    assert_eq!(dir_or_current(Some("d".to_string())), "d");
    assert_eq!(dir_or_current(None), ".");
}

#[test]
fn output_extension_follows_source() {
    assert_eq!(output_extension("/v/clip.MP4"), Ok("MP4".to_string()));
    assert_eq!(output_extension("/v/archive.tar.gz"), Ok("gz".to_string()));
    let msg = Err("源文件没有扩展名,无法确定输出格式".to_string());
    assert_eq!(output_extension("/v/noext"), msg);
    assert_eq!(output_extension("/v/.hidden"), msg);
    assert_eq!(output_extension_from(Some(String::new())), msg);
    assert_eq!(output_extension_from(Some("mkv".to_string())), Ok("mkv".to_string()));
}

#[test]
fn stem_of_source() {
    assert_eq!(source_stem("/v/holiday.mp4"), Ok("holiday".to_string()));
    assert_eq!(source_stem("/v/a.b.mov"), Ok("a.b".to_string()));
    let msg = Err("无法从文件名获取基础名称".to_string());
    assert_eq!(source_stem(""), msg);
    assert_eq!(source_stem_from(Some(String::new())), msg);
    assert_eq!(source_stem_from(None), msg);
}

#[test]
fn path_messages() {
    assert_eq!(missing_input_message("/x.mp4"), "输入文件不存在:/x.mp4");
    assert_eq!(missing_output_dir_message(" /nope "), "输出文件夹不存在: /nope ");
}

#[test]
fn preset_layouts() {
    assert_eq!(layout_for(6), (3, 2));
    assert_eq!(layout_for(12), (4, 3));
    assert_eq!(layout_for(20), (5, 4));
    assert_eq!(layout_for(24), (6, 4));
    assert_eq!(layout_for(36), (6, 6));
}

#[test]
fn computed_layouts() {
    assert_eq!(layout_for(1), (1, 1));
    assert_eq!(layout_for(2), (2, 1));
    assert_eq!(layout_for(5), (3, 2));
    assert_eq!(layout_for(9), (3, 3));
    assert_eq!(layout_for(10), (4, 3));
    assert_eq!(layout_for(200), (15, 14));
    assert_eq!(layout_for(0), (1, 1));
}

#[test]
fn layout_matches_float_formula_and_fits() {
    for count in 1..=200u32 {
        let (cols, rows) = layout_for(count);
        if ![6, 12, 20, 24, 36].contains(&count) {
            let c = ((count as f64).sqrt().ceil()).max(1.0) as u32;
            let r = ((count as f64 / c as f64).ceil()).max(1.0) as u32;
            assert_eq!((cols, rows), (c, r));
        }
        assert!(cols * rows >= count);
        assert!(rows >= 1 && cols >= rows);
    }
}

#[test]
fn thumb_count_range() {
    assert_eq!(validate_thumb_count(1), Ok(()));
    assert_eq!(validate_thumb_count(200), Ok(()));
    let msg = Err("缩略图数量需在 1~200 之间".to_string());
    assert_eq!(validate_thumb_count(0), msg);
    assert_eq!(validate_thumb_count(201), msg);
}

#[test]
fn thumb_names_and_command() {
    assert_eq!(thumb_file_name("movie", 0), "movie-thumb.jpg");
    assert_eq!(thumb_file_name("movie", 2), "movie-thumb (2).jpg");
    assert_eq!(video_filter("2.500000", 12), "fps=1/2.500000,scale=240:-1,tile=4x3");
    assert_eq!(video_filter("1.000000", 7), "fps=1/1.000000,scale=240:-1,tile=3x3");
    assert_eq!(
        thumb_args("/in.mp4", "fps=1/1.000000,scale=240:-1,tile=1x1", "/o.jpg"),
        vec!["-i", "/in.mp4", "-vf", "fps=1/1.000000,scale=240:-1,tile=1x1", "-frames:v", "1", "-n", "/o.jpg"]
    );
}

#[test]
fn thumb_source_needs_video_and_duration() {
    let audio_only = vec![Some("audio".to_string()), None];
    let with_video = vec![Some("audio".to_string()), Some("video".to_string())];
    assert!(!has_video_stream(&audio_only));
    assert!(has_video_stream(&with_video));
    assert_eq!(
        check_thumb_source(&audio_only, true),
        Err("该文件没有视频流,无法生成缩略图(纯音频文件不支持)".to_string())
    );
    assert_eq!(
        check_thumb_source(&with_video, false),
        Err("无法获取视频时长,不能计算缩略图间隔".to_string())
    );
    assert_eq!(check_thumb_source(&with_video, true), Ok(()));
}

#[test]
fn thumb_messages() {
    assert_eq!(thumb_failed_message(" no frames "), "生成缩略图失败:no frames");
    assert_eq!(thumb_names_exhausted_message(), "同名缩略图太多,无法生成不重名的输出文件");
    assert_eq!(thumb_output_missing_message(), "ffmpeg 已退出,但没有生成缩略图文件");
}

#[test]
fn plain_paths_on_every_platform() {
    assert_eq!(containing_dir("media/clip.mp4"), "media");
    assert_eq!(containing_dir("/a/b c/d.e.f"), "/a/b c");
    assert_eq!(containing_dir("./x.mp4"), ".");
    assert_eq!(containing_dir("clip.mp4"), ".");
    assert_eq!(output_extension("clip.mp4"), Ok("mp4".to_string()));
    assert_eq!(output_extension("dir/clip."), Err("源文件没有扩展名,无法确定输出格式".to_string()));
    assert_eq!(output_extension("dir/.bashrc"), Err("源文件没有扩展名,无法确定输出格式".to_string()));
    assert_eq!(output_extension("dir/...x"), Ok("x".to_string()));
    assert_eq!(source_stem("clip.mp4"), Ok("clip".to_string()));
    assert_eq!(source_stem("dir/.bashrc"), Ok(".bashrc".to_string()));
    assert_eq!(source_stem("dir/README"), Ok("README".to_string()));
    assert_eq!(source_stem("dir/a.b.c"), Ok("a.b".to_string()));
}

#[test]
fn windows_style_paths_keep_their_extension() {
    assert_eq!(output_extension("C:\\v\\clip.mp4"), Ok("mp4".to_string()));
    assert_eq!(output_extension("D:\\films\\a.b\\trip.tar.MKV"), Ok("MKV".to_string()));
    assert_eq!(output_extension("dir/sub\\x.mov"), Ok("mov".to_string()));
}

#[test]
fn thumb_probe_is_read_from_json() {
    let out = br#"{"streams":[{"codec_type":"video"},{"codec_type":"audio"},{"index":2}],"format":{"duration":"12.500000"}}"#;
    let (types, duration) = mediatool::thumb::read_thumb_probe(out).unwrap();
    assert_eq!(types, vec![Some("video".to_string()), Some("audio".to_string()), None]);
    assert_eq!(duration, Some("12.500000".to_string()));
    assert_eq!(mediatool::thumb::check_thumb_source(&types, true), Ok(()));
}

#[test]
fn thumb_probe_without_streams_or_duration() {
    let (types, duration) = mediatool::thumb::read_thumb_probe(br#"{"format":{"duration":12.5}}"#).unwrap();
    assert!(types.is_empty());
    assert_eq!(duration, None);
}

#[test]
fn thumb_probe_that_is_not_json() {
    let e = mediatool::thumb::read_thumb_probe(b"not json").unwrap_err();
    assert!(e.starts_with("解析 ffprobe 输出失败:"));
    assert!(e.len() > "解析 ffprobe 输出失败:".len());
}
