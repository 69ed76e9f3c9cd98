use mediatool::crop::{
    concat_args, concat_list, crop_plan, crop_names_exhausted_message, crop_output_missing_message, cut_args,
    cut_failed_message, join_failed_message, piece_failed_message,
    piece_file_name, scratch_dir_name, validate_crop_request, validate_output_name, CropSegment, TimePoint,
};
use mediatool::naming::{next_candidate, output_file_name, CandidateStep};

// A time as the window's seconds become one: rank from the bits of the number.
fn at(v: f64) -> TimePoint {
    let rank = if v.is_nan() {
        None
    } else {
        let bits = v.to_bits();
        let magnitude = (bits & 0x7fff_ffff_ffff_ffff) as i64;
        Some(if bits >> 63 == 1 { -magnitude } else { magnitude })
    };
    TimePoint { rank, finite: v.is_finite(), text: format!("{:.3}", v.max(0.0)) }
}

fn seg(start: Option<f64>, end: Option<f64>) -> CropSegment {
    CropSegment { start: start.map(at), end: end.map(at) }
}

#[test]
fn output_name_is_tidied() {
    assert_eq!(validate_output_name("  my clip.. . "), Ok("my clip".to_string()));
    assert_eq!(validate_output_name("片段-cut"), Ok("片段-cut".to_string()));
}

#[test]
fn empty_output_name_is_refused() {
    let msg = Err("请填写输出文件名(不含扩展名)".to_string());
    assert_eq!(validate_output_name(""), msg);
    assert_eq!(validate_output_name("   "), msg);
    // Names of dots only cannot point at the folder or its parent.
    assert_eq!(validate_output_name("."), msg);
    assert_eq!(validate_output_name(".."), msg);
    assert_eq!(validate_output_name(" . . ."), msg);
}

#[test]
fn output_name_with_separator_is_refused() {
    let msg = Err("输出文件名不能包含 / \\ : 字符".to_string());
    assert_eq!(validate_output_name("../x"), msg);
    assert_eq!(validate_output_name("a\\b"), msg);
    assert_eq!(validate_output_name("C:name"), msg);
}

#[test]
fn output_name_length_limit() {
    let ok = "名".repeat(200);
    assert_eq!(validate_output_name(&ok), Ok(ok.clone()));
    let long = "名".repeat(201);
    assert_eq!(validate_output_name(&long), Err("输出文件名过长".to_string()));
}

#[test]
fn accepted_name_is_accepted_again() {
    for raw in [" clip. ", "a b", "x..y.", "视频 1"] {
        let n = validate_output_name(raw).unwrap();
        assert_eq!(validate_output_name(&n), Ok(n.clone()));
    }
    // The one exception: white space kept before trailing dots.
    assert_eq!(validate_output_name("a\t."), Ok("a\t".to_string()));
    assert_eq!(validate_output_name("a\t"), Ok("a".to_string()));
}

#[test]
fn crop_request_checks_in_order() {
    assert_eq!(
        validate_crop_request(" ", &vec![]),
        Err("请填写输出文件名(不含扩展名)".to_string())
    );
    assert_eq!(validate_crop_request("out", &vec![]), Err("至少需要一个裁剪片段".to_string()));
    assert_eq!(
        validate_crop_request("out", &vec![seg(None, Some(1.0)), seg(None, None)]),
        Err("片段 2 的起始和终止时间不能同时为空".to_string())
    );
    assert_eq!(
        validate_crop_request("out", &vec![seg(Some(0.005), Some(0.0))]),
        Err("片段 1 的终止时间必须大于 0 秒".to_string())
    );
    assert_eq!(
        validate_crop_request("out", &vec![seg(Some(2.0), Some(2.0))]),
        Err("片段 1 的起始时间必须早于终止时间".to_string())
    );
    assert_eq!(
        validate_crop_request("out", &vec![seg(Some(0.0), None), seg(Some(-0.001), None)]),
        Err("片段 2 的起始时间不能为负数".to_string())
    );
    assert_eq!(
        validate_crop_request(" out ", &vec![seg(Some(0.0), None), seg(None, Some(0.001)), seg(Some(10.0), Some(20.0))]),
        Ok("out".to_string())
    );
}

#[test]
fn single_cut_arguments() {
    let args = cut_args(&seg(Some(10.0), Some(20.5)), "/in/a.mp4", "/out/a (1).mp4", false);
    assert_eq!(
        args,
        vec!["-ss", "10.000", "-to", "20.500", "-i", "/in/a.mp4", "-c", "copy", "-n", "/out/a (1).mp4"]
    );
    let args = cut_args(&seg(None, Some(90.0)), "in.mkv", "p.mkv", true);
    assert_eq!(args, vec!["-to", "90.000", "-i", "in.mkv", "-c", "copy", "-y", "p.mkv"]);
    let args = cut_args(&seg(Some(5.0), None), "in.mkv", "p.mkv", true);
    assert_eq!(args, vec!["-ss", "5.000", "-i", "in.mkv", "-c", "copy", "-y", "p.mkv"]);
}

#[test]
fn join_arguments_and_list() {
    assert_eq!(
        concat_args("/tmp/x/list.txt", "/out/o.mp4"),
        vec!["-f", "concat", "-safe", "0", "-i", "/tmp/x/list.txt", "-c", "copy", "-y", "/out/o.mp4"]
    );
    let list = concat_list(&vec!["/t/seg_0.mp4".to_string(), "/t/seg_1.mp4".to_string()]);
    assert_eq!(list, "file '/t/seg_0.mp4'\nfile '/t/seg_1.mp4'\n");
    assert_eq!(concat_list(&vec![]), "");
    assert_eq!(piece_file_name(0, "mp4"), "seg_0.mp4");
    assert_eq!(piece_file_name(12, "mov"), "seg_12.mov");
    assert_eq!(scratch_dir_name(4321), "mediatool-crop-4321");
}

#[test]
fn failure_messages() {
    assert_eq!(cut_failed_message("  boom \n"), "裁剪失败:boom");
    assert_eq!(piece_failed_message(2, ""), "片段 3 裁剪失败:未知错误(ffmpeg 未输出错误信息)");
    assert_eq!(join_failed_message("x"), "片段合并失败:x");
    assert_eq!(crop_names_exhausted_message(), "同名文件太多,无法生成不重名的输出文件");
    assert_eq!(
        crop_output_missing_message(),
        "ffmpeg 已退出,但没有生成输出文件(可能是时间范围超出文件时长)"
    );
}

#[test]
fn output_names_get_numbered() {
    assert_eq!(output_file_name("clip", "mp4", 0), "clip.mp4");
    assert_eq!(output_file_name("clip", "mp4", 1), "clip (1).mp4");
    assert_eq!(output_file_name("clip", "mp4", 9999), "clip (9999).mp4");
}

#[test]
fn numbered_names_never_repeat() {
    let mut seen = std::collections::HashSet::new();
    for i in 0..=10_000u32 {
        assert!(seen.insert(output_file_name("a (1)", "mp4", i)));
    }
}

#[test]
fn search_for_free_name() {
    assert_eq!(next_candidate(0, false), CandidateStep::Use);
    assert_eq!(next_candidate(0, true), CandidateStep::Try(1));
    assert_eq!(next_candidate(41, true), CandidateStep::Try(42));
    assert_eq!(next_candidate(9998, true), CandidateStep::Try(9999));
    assert_eq!(next_candidate(9999, true), CandidateStep::GiveUp);
    assert_eq!(next_candidate(9999, false), CandidateStep::Use);
}

#[test]
fn search_ends_after_ten_thousand_names() {
    // Every name taken: the search tries 10000 names and gives up.
    let mut index = 0u32;
    let mut tried = 1;
    loop {
        match next_candidate(index, true) {
            CandidateStep::Try(n) => {
                index = n;
                tried += 1;
            }
            CandidateStep::GiveUp => break,
            CandidateStep::Use => panic!("a taken name was used"),
        }
    }
    assert_eq!(tried, 10_000);
}

#[test]
fn plan_of_single_cut() {
    let plan = crop_plan(&vec![seg(Some(1.0), Some(2.0))], "in.mp4", "out.mp4", &vec![], "");
    assert_eq!(
        plan.cuts,
        vec![vec!["-ss", "1.000", "-to", "2.000", "-i", "in.mp4", "-c", "copy", "-n", "out.mp4"]]
    );
    assert!(plan.join.is_none());
    assert_eq!(plan.list, "");
    assert_eq!(
        mediatool::crop::plan_cut_failed_message(&plan, 0, "bad"),
        "裁剪失败:bad"
    );
}

#[test]
fn plan_of_several_pieces() {
    let segs = vec![seg(None, Some(3.0)), seg(Some(9.0), None)];
    let pieces = vec!["/t/seg_0.mkv".to_string(), "/t/seg_1.mkv".to_string()];
    let plan = crop_plan(&segs, "in.mkv", "out.mkv", &pieces, "/t/list.txt");
    assert_eq!(
        plan.cuts,
        vec![
            vec!["-to", "3.000", "-i", "in.mkv", "-c", "copy", "-y", "/t/seg_0.mkv"],
            vec!["-ss", "9.000", "-i", "in.mkv", "-c", "copy", "-y", "/t/seg_1.mkv"],
        ]
    );
    assert_eq!(
        plan.join,
        Some(
            vec!["-f", "concat", "-safe", "0", "-i", "/t/list.txt", "-c", "copy", "-y", "out.mkv"]
                .into_iter()
                .map(String::from)
                .collect()
        )
    );
    assert_eq!(plan.list, "file '/t/seg_0.mkv'\nfile '/t/seg_1.mkv'\n");
    assert_eq!(
        mediatool::crop::plan_cut_failed_message(&plan, 1, "bad"),
        "片段 2 裁剪失败:bad"
    );
}

#[test]
fn output_keeps_source_extension() {
    let ext = mediatool::paths::output_extension("/videos/trip.MOV").unwrap();
    assert_eq!(output_file_name("trip-cut", &ext, 0), "trip-cut.MOV");
    assert_eq!(output_file_name("trip-cut", &ext, 3), "trip-cut (3).MOV");
}

#[test]
fn times_compare_exactly() {
    // Within one millisecond, and below a millisecond.
    assert_eq!(validate_crop_request("o", &vec![seg(Some(1.0001), Some(1.0004))]), Ok("o".to_string()));
    assert_eq!(
        validate_crop_request("o", &vec![seg(Some(1.0004), Some(1.0001))]),
        Err("片段 1 的起始时间必须早于终止时间".to_string())
    );
    assert_eq!(validate_crop_request("o", &vec![seg(None, Some(0.0004))]), Ok("o".to_string()));
    assert_eq!(
        validate_crop_request("o", &vec![seg(Some(-0.0004), None)]),
        Err("片段 1 的起始时间不能为负数".to_string())
    );
    // Zero and minus zero are the same time.
    assert_eq!(validate_crop_request("o", &vec![seg(Some(-0.0), Some(1.0))]), Ok("o".to_string()));
    assert_eq!(
        validate_crop_request("o", &vec![seg(None, Some(-0.0))]),
        Err("片段 1 的终止时间必须大于 0 秒".to_string())
    );
}

#[test]
fn times_that_are_not_finite() {
    let end_msg = Err("片段 1 的终止时间必须大于 0 秒".to_string());
    assert_eq!(validate_crop_request("o", &vec![seg(None, Some(f64::INFINITY))]), end_msg);
    assert_eq!(validate_crop_request("o", &vec![seg(Some(1.0), Some(f64::NAN))]), end_msg);
    // A start that is not a number compares with nothing and is let through.
    assert_eq!(validate_crop_request("o", &vec![seg(Some(f64::NAN), Some(2.0))]), Ok("o".to_string()));
    assert_eq!(
        validate_crop_request("o", &vec![seg(Some(f64::INFINITY), Some(2.0))]),
        Err("片段 1 的起始时间必须早于终止时间".to_string())
    );
    assert_eq!(
        validate_crop_request("o", &vec![seg(Some(f64::NEG_INFINITY), None)]),
        Err("片段 1 的起始时间不能为负数".to_string())
    );
}

#[test]
fn cut_times_are_given_as_written() {
    let args = cut_args(&seg(Some(-3.0), Some(1.23456)), "i", "o", false);
    assert_eq!(args[..4], ["-ss", "0.000", "-to", "1.235"]);
}
