use serde_json::Value;
use video_gen::log::{format_error, format_event_stderr, format_event_stdout};
use video_gen::{BuildEvent, LogMode, SegmentKind, SegmentStatus};

fn json(text: &str) -> Value {
    serde_json::from_str(text.trim()).unwrap()
}

#[test]
fn text_mode_writes_discover_line_to_stdout() {
    let line = format_event_stdout(
        LogMode::Text,
        &BuildEvent::Discover {
            units: 8,
            orphans: 3,
        },
    )
    .unwrap();

    assert!(line.contains("[discover]"));
    assert!(line.contains("8 units"));
    assert!(line.contains("3 orphans"));
}

#[test]
fn text_mode_writes_warn_to_stderr() {
    let line = format_event_stderr(
        LogMode::Text,
        &BuildEvent::Warn {
            message: "orphan: 03_a.jpg (no audio)".to_string(),
        },
    )
    .unwrap();

    assert!(line.contains("WARN"));
    assert!(line.contains("orphan: 03_a.jpg"));
}

#[test]
fn quiet_mode_suppresses_progress_events() {
    assert!(format_event_stdout(
        LogMode::Quiet,
        &BuildEvent::Discover {
            units: 8,
            orphans: 3,
        },
    )
    .is_none());
    assert!(format_event_stdout(
        LogMode::Quiet,
        &BuildEvent::Segment {
            index: 1,
            total: 11,
            name: "seg_001".to_string(),
            kind: SegmentKind::LeadIn,
            basename: None,
            duration_ms: 2000,
            elapsed_ms: 400,
            status: SegmentStatus::Okay,
        },
    )
    .is_none());
}

#[test]
fn quiet_mode_still_writes_done_line() {
    let line = format_event_stdout(
        LogMode::Quiet,
        &BuildEvent::Done {
            output: "output/v.mp4".to_string(),
            bytes: 100,
            duration_ms: 1000,
            elapsed_ms: 5000,
        },
    )
    .unwrap();

    assert!(line.contains("output/v.mp4"));
    assert!(line.contains("done:"));
}

#[test]
fn json_mode_emits_discover_object_on_stdout() {
    let line = format_event_stdout(
        LogMode::Json,
        &BuildEvent::Discover {
            units: 8,
            orphans: 3,
        },
    )
    .unwrap();

    let data = json(&line);
    assert_eq!(data, json(r#"{"phase":"discover","units":8,"orphans":3}"#));
    assert_eq!(line, r#"{"phase":"discover","units":8,"orphans":3}"#);
}

#[test]
fn errors_render_as_text_or_json() {
    assert!(format_error(LogMode::Text, "image dimensions mismatch", 2).contains("[error]"));

    let data = json(&format_error(LogMode::Json, "boom", 2));
    assert_eq!(data, json(r#"{"phase":"error","code":2,"message":"boom"}"#));
}

#[test]
fn text_lines_follow_the_documented_layout() {
    let plan = format_event_stdout(
        LogMode::Text,
        &BuildEvent::Plan {
            segments: 11,
            total_ms: 47_200,
            summary: "lead-in 2.0s, 8x unit, 2x gap 0.5s, tail 1.0s".to_string(),
        },
    )
    .unwrap();
    assert_eq!(
        plan,
        "[plan]     11 segments (lead-in 2.0s, 8x unit, 2x gap 0.5s, tail 1.0s) total 47.2s"
    );
    let seg = format_event_stdout(
        LogMode::Text,
        &BuildEvent::Segment {
            index: 2,
            total: 11,
            name: "seg_002".to_string(),
            kind: SegmentKind::Unit,
            basename: Some("01_intro".to_string()),
            duration_ms: 4217,
            elapsed_ms: 1100,
            status: SegmentStatus::Okay,
        },
    )
    .unwrap();
    assert_eq!(seg, "[build]    [ 2/11] seg_002 unit 01_intro        4.217s ... ok (1.1s)");
    let concat = format_event_stdout(
        LogMode::Text,
        &BuildEvent::Concat {
            output: "output/myvid.mp4".to_string(),
            bytes: 13_421_772,
            duration_ms: 47_200,
        },
    )
    .unwrap();
    assert_eq!(concat, "[concat]   output/myvid.mp4 (12.8MB, 47.2s)");
    let done = format_event_stdout(
        LogMode::Text,
        &BuildEvent::Done {
            output: "output/myvid.mp4".to_string(),
            bytes: 13_421_772,
            duration_ms: 47_200,
            elapsed_ms: 18_449,
        },
    )
    .unwrap();
    assert_eq!(done, "done in 18.4s");
    let discover = format_event_stdout(LogMode::Text, &BuildEvent::Discover { units: 8, orphans: 3 }).unwrap();
    assert_eq!(discover, "[discover] 8 units (3 orphans skipped)");
}

#[test]
fn warnings_go_to_stderr_only_outside_json_mode() {
    let warn = BuildEvent::Warn {
        message: "orphan: a.jpg (no audio)".to_string(),
    };
    assert!(format_event_stdout(LogMode::Text, &warn).is_none());
    assert_eq!(
        format_event_stderr(LogMode::Quiet, &warn).unwrap(),
        "WARN orphan: a.jpg (no audio)"
    );
    assert!(format_event_stderr(LogMode::Json, &warn).is_none());
    let line = format_event_stdout(LogMode::Json, &warn).unwrap();
    assert_eq!(json(&line), json(r#"{"phase":"warn","message":"orphan: a.jpg (no audio)"}"#));
}

#[test]
fn json_segment_event_names_every_field() {
    let line = format_event_stdout(
        LogMode::Json,
        &BuildEvent::Segment {
            index: 1,
            total: 3,
            name: "seg_001".to_string(),
            kind: SegmentKind::LeadIn,
            basename: None,
            duration_ms: 2000,
            elapsed_ms: 400,
            status: SegmentStatus::Fail,
        },
    )
    .unwrap();
    assert_eq!(
        line,
        r#"{"phase":"segment","index":1,"total":3,"name":"seg_001","kind":"lead-in","basename":null,"duration_ms":2000,"elapsed_ms":400,"status":"fail"}"#
    );
}

#[test]
fn json_strings_are_escaped() {
    let line = format_error(LogMode::Json, "a \"quoted\"\nline", 1);
    assert_eq!(line, r#"{"phase":"error","code":1,"message":"a \"quoted\"\nline"}"#);
}

#[test]
fn quiet_done_line_has_size_and_duration() {
    let line = format_event_stdout(
        LogMode::Quiet,
        &BuildEvent::Done {
            output: "out.mp4".to_string(),
            bytes: 1_048_576,
            duration_ms: 1_950,
            elapsed_ms: 10,
        },
    )
    .unwrap();
    assert_eq!(line, "done: out.mp4 (1.0MB, 2.0s)");
}

#[test]
fn silent_segment_lines_pad_the_label_column() {
    let line = format_event_stdout(
        LogMode::Text,
        &BuildEvent::Segment {
            index: 1,
            total: 11,
            name: "seg_001".to_string(),
            kind: SegmentKind::LeadIn,
            basename: None,
            duration_ms: 2000,
            elapsed_ms: 400,
            status: SegmentStatus::Okay,
        },
    )
    .unwrap();
    assert_eq!(line, "[build]    [ 1/11] seg_001 lead-in              2.000s ... ok (0.4s)");
}

#[test]
fn json_control_characters_and_backslashes_are_escaped() {
    let line = format_error(LogMode::Json, "tab\there\\\u{1}\u{8}\u{c}\r\u{1f}\u{7f}é", -3);
    assert_eq!(
        line,
        "{\"phase\":\"error\",\"code\":-3,\"message\":\"tab\\there\\\\\\u0001\\b\\f\\r\\u001f\u{7f}é\"}"
    );
}
