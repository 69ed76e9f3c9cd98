use mediatool::ffmpeg::{
    missing_binary_message, probe_failure_message, resource_relative_path,
    thumb_probe_failure_message, useful_ffmpeg_error,
};
use mediatool::text::{push_decimal, push_signed_decimal, same_text, trim_text};

#[test]
fn decimal_notation() {
    let mut s = String::new();
    push_decimal(&mut s, 0);
    assert_eq!(s, "0");
    let mut s = String::from("n=");
    push_decimal(&mut s, 1234567890);
    assert_eq!(s, "n=1234567890");
    let mut s = String::new();
    push_decimal(&mut s, u64::MAX);
    assert_eq!(s, u64::MAX.to_string());
}

#[test]
fn signed_decimal_notation() {
    let mut s = String::new();
    push_signed_decimal(&mut s, -42);
    assert_eq!(s, "-42");
    let mut s = String::new();
    push_signed_decimal(&mut s, i64::MIN);
    assert_eq!(s, i64::MIN.to_string());
    let mut s = String::new();
    push_signed_decimal(&mut s, 7);
    assert_eq!(s, "7");
}

#[test]
fn trim_matches_std() {
    for t in ["", "   ", "  a b  ", "\u{3000}全角空格\u{3000}", "\t\n x \r", "\u{85}y\u{a0}"] {
        assert_eq!(trim_text(t), t.trim());
    }
}

#[test]
fn same_text_compares_characters() {
    assert!(same_text("h264", "h264"));
    assert!(!same_text("h264", "h265"));
    assert!(!same_text("h264", "h2640"));
    assert!(same_text("", ""));
}

#[test]
fn error_of_silent_tool_is_unknown() {
    assert_eq!(useful_ffmpeg_error(""), "未知错误(ffmpeg 未输出错误信息)");
    assert_eq!(useful_ffmpeg_error(" \n\t "), "未知错误(ffmpeg 未输出错误信息)");
}

#[test]
fn short_error_is_kept_whole() {
    assert_eq!(useful_ffmpeg_error("  line one\nline two \n"), "line one\nline two");
}

#[test]
fn long_error_keeps_last_full_lines() {
    // 800 characters on a first line, then a short last line.
    let first = "x".repeat(800);
    let stderr = format!("{}\nInvalid argument\n", first);
    assert_eq!(useful_ffmpeg_error(&stderr), "Invalid argument");
    // The cut falls inside a line: that partial line is dropped.
    let lines: Vec<String> = (0..100).map(|i| format!("line {:03} of the log", i)).collect();
    let stderr = lines.join("\n");
    let got = useful_ffmpeg_error(&stderr);
    assert!(got.chars().count() <= 700);
    assert!(got.ends_with("line 099 of the log"));
    assert!(got.starts_with("line "));
    assert!(stderr.contains(&got));
}

#[test]
fn long_error_without_newline_keeps_700_characters() {
    let stderr = "错".repeat(1000);
    let got = useful_ffmpeg_error(&stderr);
    assert_eq!(got.chars().count(), 700);
    assert_eq!(got, "错".repeat(700));
}

#[test]
fn useful_error_is_never_empty_nor_long() {
    for s in ["", "a", &"b".repeat(701), &format!("{}\n", "c".repeat(699)), &format!("{}\n\n  z", "c".repeat(1000))] {
        let got = useful_ffmpeg_error(s);
        assert!(!got.is_empty());
        assert!(got.chars().count() <= 700);
    }
}

#[test]
fn probe_failure_messages() {
    assert_eq!(
        probe_failure_message("  "),
        "ffprobe 返回错误且没有输出错误信息(文件可能不是有效的媒体文件)"
    );
    assert_eq!(probe_failure_message(" bad file \n"), "无法读取该文件:bad file");
    assert_eq!(
        thumb_probe_failure_message(""),
        "无法读取该文件(文件可能不是有效的媒体文件)"
    );
    assert_eq!(thumb_probe_failure_message("oops"), "无法读取该文件:oops");
}

#[test]
fn bundled_tool_paths() {
    assert_eq!(resource_relative_path("ffmpeg", false), "resources/ffmpeg");
    assert_eq!(resource_relative_path("ffprobe", true), "resources/ffprobe.exe");
    assert_eq!(
        missing_binary_message("ffmpeg"),
        "未找到内置 ffmpeg。本地开发请先将其放入 src-tauri/resources/ 目录(参见 README)"
    );
}
