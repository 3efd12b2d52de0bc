use overlay_pipeline::errors::InputError;
use overlay_pipeline::plan::Segment;
use overlay_pipeline::synth::synthesize;

#[test]
fn synthesize_rejects_mismatched_lists() {
    let overlay = vec![Segment { start_ms: 0, end_ms: 500 }];
    let background: Vec<Segment> = vec![];
    let r = synthesize(&overlay, &background, None, "/r", None, None, None);
    assert_eq!(r.unwrap_err(), InputError::SegmentCountMismatch);
}

#[test]
fn synthesize_rejects_empty_lists() {
    let r = synthesize(&vec![], &vec![], None, "/r", None, None, None);
    assert_eq!(r.unwrap_err(), InputError::EmptyInput);
}

#[test]
fn synthesize_single_segment_full_argument_list() {
    let overlay = vec![Segment { start_ms: 0, end_ms: 500 }];
    let background = vec![Segment { start_ms: 1000, end_ms: 3000 }];
    let args = synthesize(&overlay, &background, Some((7, 9)), "/r", None, None, None).unwrap();
    let expected: Vec<&str> = vec![
        "-i",
        "/r/sample_exporting/background.mp4",
        "-ss",
        "0",
        "-t",
        "0.5",
        "-i",
        "/r/sample_exporting/chess-animation.mp4",
        "-filter_complex",
        "[1:v]tpad=stop_mode=clone:stop_duration=1.5,setpts=PTS+1/TB[processed_overlay_1];[0:v][processed_overlay_1]overlay=7:9:enable='between(t,1,3)'[v_out_1]",
        "-map",
        "[v_out_1]",
        "-map",
        "0:a?",
        "-c:a",
        "copy",
        "-y",
        "/r/sample_exporting/output.mp4",
    ];
    assert_eq!(args, expected);
}

#[test]
fn synthesize_argument_count_is_linear_in_segments() {
    for n in 1..6usize {
        let overlay: Vec<Segment> = (0..n)
            .map(|i| Segment { start_ms: (i as i64) * 200, end_ms: (i as i64 + 1) * 200 })
            .collect();
        let background: Vec<Segment> = (0..n)
            .map(|i| Segment { start_ms: (i as i64) * 400, end_ms: (i as i64 + 1) * 400 + 100 })
            .collect();
        let args = synthesize(&overlay, &background, None, "/r", None, None, None).unwrap();
        assert_eq!(args.len(), 12 + 6 * n);
    }
}

#[test]
fn synthesize_skips_padding_for_tiny_freeze() {
    // background only one millisecond longer than the overlay: no padding
    let overlay = vec![Segment { start_ms: 0, end_ms: 500 }];
    let background = vec![Segment { start_ms: 0, end_ms: 501 }];
    let args = synthesize(&overlay, &background, None, "/r", None, None, None).unwrap();
    let graph = &args[9];
    assert!(!graph.contains("tpad"));
    // two milliseconds longer: padding appears
    let background2 = vec![Segment { start_ms: 0, end_ms: 502 }];
    let args2 = synthesize(&overlay, &background2, None, "/r", None, None, None).unwrap();
    assert!(args2[9].contains("tpad=stop_mode=clone:stop_duration=0.002,"));
}

#[test]
fn synthesize_uses_given_file_names() {
    let overlay = vec![Segment { start_ms: 0, end_ms: 200 }];
    let background = vec![Segment { start_ms: 0, end_ms: 200 }];
    let args = synthesize(
        &overlay,
        &background,
        None,
        "/work",
        Some("bg.mp4"),
        Some("ov.mp4"),
        Some("out.mp4"),
    )
    .unwrap();
    assert_eq!(args[1], "/work/sample_exporting/bg.mp4");
    assert_eq!(args[7], "/work/sample_exporting/ov.mp4");
    assert_eq!(args[args.len() - 1], "/work/sample_exporting/out.mp4");
}

#[test]
fn synthesize_three_segments_exact_filter_graph() {
    // the planner's output for timestamps 0.2s/0.4s/0.6s at 0.2s per move
    let overlay = vec![
        Segment { start_ms: 0, end_ms: 200 },
        Segment { start_ms: 200, end_ms: 400 },
        Segment { start_ms: 400, end_ms: 600 },
    ];
    let background = vec![
        Segment { start_ms: 200, end_ms: 400 },
        Segment { start_ms: 200, end_ms: 600 },
        Segment { start_ms: 400, end_ms: 7000 },
    ];
    let args = synthesize(&overlay, &background, Some((10, 20)), "/proj", None, None, None)
        .unwrap();
    let graph = &args[args.len() - 9];
    let expected = "[1:v]setpts=PTS+0.2/TB[processed_overlay_1];[0:v][processed_overlay_1]overlay=10:20:enable='between(t,0.2,0.4)'[v_out_1];[2:v]tpad=stop_mode=clone:stop_duration=0.2,setpts=PTS+0.2/TB[processed_overlay_2];[v_out_1][processed_overlay_2]overlay=10:20:enable='between(t,0.2,0.6)'[v_out_2];[3:v]tpad=stop_mode=clone:stop_duration=6.4,setpts=PTS+0.4/TB[processed_overlay_3];[v_out_2][processed_overlay_3]overlay=10:20:enable='between(t,0.4,7)'[v_out_3]";
    assert_eq!(graph, expected);
    assert_eq!(args[args.len() - 7], "[v_out_3]");
}

#[test]
fn synthesize_chains_output_labels() {
    let overlay = vec![
        Segment { start_ms: 0, end_ms: 200 },
        Segment { start_ms: 200, end_ms: 400 },
    ];
    let background = vec![
        Segment { start_ms: 200, end_ms: 400 },
        Segment { start_ms: 200, end_ms: 600 },
    ];
    let args = synthesize(&overlay, &background, None, "/r", None, None, None).unwrap();
    let graph = &args[args.len() - 9];
    assert!(graph.contains("[0:v][processed_overlay_1]"));
    assert!(graph.contains("[v_out_1][processed_overlay_2]"));
    assert_eq!(args[args.len() - 7], "[v_out_2]");
}
