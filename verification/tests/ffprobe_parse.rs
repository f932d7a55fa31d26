use video_gen::ffmpeg::{
    audio_duration_text, audio_probe_argv, image_probe_argv, image_size_from_probe,
    invalid_audio_duration, ImageSize, ProbeData, ProbeStream,
};

fn stream(duration: Option<&str>, width: Option<u64>, height: Option<u64>) -> ProbeStream {
    ProbeStream {
        duration: duration.map(|d| d.to_string()),
        width,
        height,
    }
}

#[test]
fn rejects_missing_audio_stream() {
    let err = audio_duration_text(&ProbeData {
        streams: Some(vec![]),
    })
    .unwrap_err();

    assert!(err.message().contains("no audio stream"));
}

#[test]
fn rejects_missing_audio_duration() {
    let err = audio_duration_text(&ProbeData {
        streams: Some(vec![stream(None, None, None)]),
    })
    .unwrap_err();

    assert!(err.message().contains("duration"));
}

#[test]
fn rejects_non_finite_audio_duration() {
    let text = audio_duration_text(&ProbeData {
        streams: Some(vec![stream(Some("N/A"), None, None)]),
    })
    .unwrap();
    assert_eq!(text, "N/A");

    let err = invalid_audio_duration(&text);

    assert!(err.message().contains("duration"));
    assert_eq!(err.message(), "ffprobe: invalid audio duration \"N/A\"");
}

#[test]
fn reads_audio_duration_text_from_first_stream() {
    let text = audio_duration_text(&ProbeData {
        streams: Some(vec![
            stream(Some("4.217333"), None, None),
            stream(Some("9.0"), None, None),
        ]),
    })
    .unwrap();
    assert_eq!(text, "4.217333");
}

#[test]
fn reads_image_size_from_first_stream() {
    let data = ProbeData {
        streams: Some(vec![stream(None, Some(1920), Some(1080))]),
    };

    assert_eq!(
        image_size_from_probe(&data).unwrap(),
        ImageSize {
            width: 1920,
            height: 1080,
        }
    );
}

#[test]
fn rejects_missing_image_dimensions() {
    let err = image_size_from_probe(&ProbeData {
        streams: Some(vec![stream(None, None, None)]),
    })
    .unwrap_err();

    assert!(err.message().contains("dimensions"));
}

#[test]
fn rejects_report_without_streams() {
    let err = image_size_from_probe(&ProbeData { streams: None }).unwrap_err();
    assert_eq!(err.message(), "ffprobe: missing image dimensions");
    assert_eq!(err.exit_code(), 1);
}

#[test]
fn probe_arguments_ask_for_the_first_stream_as_json() {
    assert_eq!(
        image_probe_argv("/i/a.png"),
        vec!["-v", "error", "-select_streams", "v:0", "-show_entries", "stream=width,height", "-of", "json", "/i/a.png"]
    );
    assert_eq!(
        audio_probe_argv("/a/a.wav"),
        vec!["-v", "error", "-select_streams", "a:0", "-show_entries", "stream=duration", "-of", "json", "/a/a.wav"]
    );
}
