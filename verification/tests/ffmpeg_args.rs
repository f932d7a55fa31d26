use video_gen::ffmpeg::{concat_argv, concat_list_content, format_seconds, segment_argv};
use video_gen::{EncodeOptions, Segment};

fn opts() -> EncodeOptions {
    EncodeOptions {
        fps: 30,
        crf: 20,
        preset: "medium".to_string(),
        audio_bitrate: "192k".to_string(),
    }
}

#[test]
fn builds_unit_segment_with_audio_input() {
    let argv = segment_argv(
        &Segment::Unit {
            image: "/i/a.jpg".to_string(),
            audio: "/a/a.mp3".to_string(),
            duration_ms: 4217,
        },
        "/tmp/seg_002.mp4",
        &opts(),
    );

    assert_eq!(
        argv,
        vec![
            "-y",
            "-loop",
            "1",
            "-framerate",
            "30",
            "-i",
            "/i/a.jpg",
            "-i",
            "/a/a.mp3",
            "-af",
            "aresample=48000,aformat=channel_layouts=stereo",
            "-c:v",
            "libx264",
            "-preset",
            "medium",
            "-crf",
            "20",
            "-pix_fmt",
            "yuv420p",
            "-c:a",
            "aac",
            "-b:a",
            "192k",
            "-t",
            "4.217",
            "-shortest",
            "-movflags",
            "+faststart",
            "/tmp/seg_002.mp4",
        ]
    );
}

#[test]
fn builds_silent_segment_with_aevalsrc() {
    let argv = segment_argv(
        &Segment::LeadIn {
            image: "/i/a.jpg".to_string(),
            duration_ms: 2000,
        },
        "/tmp/seg_001.mp4",
        &opts(),
    );

    assert_eq!(
        argv,
        vec![
            "-y",
            "-loop",
            "1",
            "-framerate",
            "30",
            "-i",
            "/i/a.jpg",
            "-f",
            "lavfi",
            "-i",
            "aevalsrc=0:s=48000:c=stereo",
            "-c:v",
            "libx264",
            "-preset",
            "medium",
            "-crf",
            "20",
            "-pix_fmt",
            "yuv420p",
            "-c:a",
            "aac",
            "-b:a",
            "192k",
            "-t",
            "2.000",
            "-shortest",
            "-movflags",
            "+faststart",
            "/tmp/seg_001.mp4",
        ]
    );
}

#[test]
fn formats_fractional_seconds_to_three_decimals() {
    let argv = segment_argv(
        &Segment::Gap {
            image: "/i/x.jpg".to_string(),
            duration_ms: 500,
        },
        "/tmp/seg.mp4",
        &opts(),
    );

    assert!(argv.contains(&"0.500".to_string()));
}

#[test]
fn respects_custom_encode_options() {
    let argv = segment_argv(
        &Segment::Gap {
            image: "/i/x.jpg".to_string(),
            duration_ms: 500,
        },
        "/tmp/seg.mp4",
        &EncodeOptions {
            fps: 25,
            crf: 18,
            preset: "slower".to_string(),
            audio_bitrate: "256k".to_string(),
        },
    );

    assert!(argv.contains(&"25".to_string()));
    assert!(argv.contains(&"18".to_string()));
    assert!(argv.contains(&"slower".to_string()));
    assert!(argv.contains(&"256k".to_string()));
}

#[test]
fn concat_uses_demuxer_with_copy_codec() {
    let argv = concat_argv("/tmp/concat.txt", "/out/v.mp4");

    assert_eq!(
        argv,
        vec![
            "-y",
            "-f",
            "concat",
            "-safe",
            "0",
            "-i",
            "/tmp/concat.txt",
            "-c",
            "copy",
            "-movflags",
            "+faststart",
            "/out/v.mp4",
        ]
    );
}

#[test]
fn concat_list_emits_one_file_line_per_segment() {
    assert_eq!(
        concat_list_content(&["seg_001.mp4".to_string(), "seg_002.mp4".to_string()]),
        "file 'seg_001.mp4'\nfile 'seg_002.mp4'\n"
    );
}

#[test]
fn concat_list_escapes_single_quotes() {
    assert_eq!(
        concat_list_content(&["seg_'weird'.mp4".to_string()]),
        "file 'seg_'\\''weird'\\''.mp4'\n"
    );
}

#[test]
fn concat_list_of_no_files_is_a_lone_newline() {
    assert_eq!(concat_list_content(&[]), "\n");
}

#[test]
fn formats_seconds_exactly() {
    assert_eq!(format_seconds(0), "0.000");
    assert_eq!(format_seconds(7), "0.007");
    assert_eq!(format_seconds(61_050), "61.050");
    assert_eq!(format_seconds(u64::MAX), "18446744073709551.615");
}

#[test]
fn default_encode_options_match_the_cli_defaults() {
    let o = EncodeOptions::default();
    assert_eq!(o.fps, 30);
    assert_eq!(o.crf, 20);
    assert_eq!(o.preset, "medium");
    assert_eq!(o.audio_bitrate, "192k");
}

/// Reads one token of a concat list line as the demuxer and a shell do.
fn unquote(token: &str) -> String {
    let mut out = String::new();
    let mut quoted = false;
    let mut chars = token.chars();
    while let Some(c) = chars.next() {
        if c == '\'' {
            quoted = !quoted;
        } else if !quoted && c == '\\' {
            if let Some(next) = chars.next() {
                out.push(next);
            }
        } else {
            out.push(c);
        }
    }
    out
}

#[test]
fn concat_list_reads_back_as_the_file_names() {
    let names = vec![
        "seg_001.mp4".to_string(),
        "it's.mp4".to_string(),
        "''".to_string(),
        "back\\slash 'x'.mp4".to_string(),
    ];
    let content = concat_list_content(&names);
    assert!(content.ends_with('\n'));
    let lines: Vec<&str> = content.split_terminator('\n').collect();
    assert_eq!(lines.len(), names.len());
    for (line, name) in lines.iter().zip(names.iter()) {
        let token = line.strip_prefix("file ").unwrap();
        assert_eq!(&unquote(token), name);
    }
}
