use video_gen::ffmpeg::{ProbeData, ProbeStream};
use video_gen::{
    discover_entries, BinaryOptions, BuildEvent, BuildMachine, BuildOptions, BuildResult,
    EncodeOptions, FileEntry, Job, Outcome, PlanOptions, VideoGenError,
};

fn entry(path: &str, name: &str) -> FileEntry {
    FileEntry {
        path: path.to_string(),
        file_name: Some(name.to_string()),
        is_file: true,
    }
}

fn build_options(output_path: &str, keep_temp: bool) -> BuildOptions {
    BuildOptions {
        input_dir: "/w/input".to_string(),
        output_path: output_path.to_string(),
        work_dir: "/w".to_string(),
        keep_temp,
        plan: PlanOptions {
            lead_in_ms: 1000,
            tail_ms: 1000,
            gap_ms: 500,
        },
        encode: EncodeOptions {
            fps: 30,
            crf: 28,
            preset: "ultrafast".to_string(),
            audio_bitrate: "128k".to_string(),
        },
        binaries: BinaryOptions::default(),
    }
}

fn size(width: u64, height: u64) -> ProbeData {
    ProbeData {
        streams: Some(vec![ProbeStream {
            duration: None,
            width: Some(width),
            height: Some(height),
        }]),
    }
}

/// Runs a build, answering each job as a working ffmpeg would, with the given
/// image sizes (in pair order) and one second of audio per pair.
fn run(sizes: &[(u64, u64)], keep_temp: bool) -> (Result<BuildResult, VideoGenError>, Vec<BuildEvent>, Vec<Job>) {
    let entries = vec![
        entry("/w/input/01_a.png", "01_a.png"),
        entry("/w/input/02_b.png", "02_b.png"),
        entry("/w/input/01_a.wav", "01_a.wav"),
        entry("/w/input/02_b.wav", "02_b.wav"),
    ];
    let found = discover_entries("/w/input", true, &entries).unwrap();
    let (mut machine, mut reaction) =
        BuildMachine::start(found, build_options("/w/output/test.mp4", keep_temp), "/w/.video-gen/build-1".to_string(), '/');
    let mut events = Vec::new();
    let mut jobs = Vec::new();
    let mut probed = 0;
    loop {
        events.extend(reaction.events);
        let outcome = match &reaction.job {
            Job::ProbeImage { .. } => {
                let (w, h) = sizes[probed];
                probed += 1;
                Outcome::ImageProbed(Ok(size(w, h)))
            }
            Job::ProbeAudio { .. } => Outcome::AudioProbed(Ok(1000)),
            Job::CreateDir { .. } => Outcome::DirCreated(Ok(())),
            Job::Encode { .. } => Outcome::Encoded { result: Ok(()), elapsed_ms: 10 },
            Job::WriteFile { .. } => Outcome::FileWritten(Ok(())),
            Job::Concat { .. } => Outcome::Concatenated { result: Ok(4096), elapsed_ms: 99 },
            Job::RemoveDir { .. } => Outcome::DirRemoved { result: Ok(()), elapsed_ms: 120 },
            Job::Finish(_) | Job::Fail(_) => break,
        };
        jobs.push(reaction.job);
        assert!(machine.accepts_outcome(&outcome));
        reaction = machine.step(outcome);
    }
    let result = match reaction.job {
        Job::Finish(r) => Ok(r),
        Job::Fail(e) => Err(e),
        _ => unreachable!(),
    };
    (result, events, jobs)
}

#[test]
fn produces_single_mp4_with_expected_duration_and_cleans_temp_dir() {
    let (result, events, jobs) = run(&[(320, 180), (320, 180)], false);
    let result = result.unwrap();

    assert_eq!(result.output, "/w/output/test.mp4");
    assert!(result.bytes > 0);

    let duration = result.duration_ms as f64 / 1000.0;
    assert!(duration > 4.3, "duration was {duration}");
    assert!(duration < 4.8, "duration was {duration}");

    assert!(jobs.iter().any(|job| matches!(job, Job::RemoveDir { path } if path == "/w/.video-gen/build-1")));
    assert!(events.iter().any(|event| matches!(event, BuildEvent::Done { .. })));
}

#[test]
fn rejects_mismatched_image_dimensions() {
    let (result, _, jobs) = run(&[(320, 180), (640, 360)], false);
    let err = result.unwrap_err();

    assert!(matches!(err, VideoGenError::User { .. }));
    assert!(err.message().contains("image dimensions mismatch"));
    assert_eq!(
        err.message(),
        "image dimensions mismatch:\n  expected 320x180 (from 01_a.png)\n  got      640x360  in    02_b.png"
    );
    assert!(!jobs.iter().any(|job| matches!(job, Job::Encode { .. })));
}

#[test]
fn encodes_every_segment_in_order_then_concatenates() {
    let (_, events, jobs) = run(&[(320, 180), (320, 180)], false);
    let encodes: Vec<&Vec<String>> = jobs
        .iter()
        .filter_map(|job| match job {
            Job::Encode { argv } => Some(argv),
            _ => None,
        })
        .collect();
    assert_eq!(encodes.len(), 5);
    for (i, argv) in encodes.iter().enumerate() {
        assert_eq!(argv.last().unwrap(), &format!("/w/.video-gen/build-1/seg_00{}.mp4", i + 1));
    }
    let list = jobs
        .iter()
        .find_map(|job| match job {
            Job::WriteFile { path, content } => Some((path.clone(), content.clone())),
            _ => None,
        })
        .unwrap();
    assert_eq!(list.0, "/w/.video-gen/build-1/concat.txt");
    assert_eq!(
        list.1,
        "file 'seg_001.mp4'\nfile 'seg_002.mp4'\nfile 'seg_003.mp4'\nfile 'seg_004.mp4'\nfile 'seg_005.mp4'\n"
    );
    let names: Vec<Option<String>> = events
        .iter()
        .filter_map(|e| match e {
            BuildEvent::Segment { basename, .. } => Some(basename.clone()),
            _ => None,
        })
        .collect();
    assert_eq!(
        names,
        vec![None, Some("01_a".to_string()), None, Some("02_b".to_string()), None]
    );
    let plan = events
        .iter()
        .find_map(|e| match e {
            BuildEvent::Plan { segments, total_ms, summary } => Some((*segments, *total_ms, summary.clone())),
            _ => None,
        })
        .unwrap();
    assert_eq!(plan, (5, 4500, "lead-in 1.0s, 2x unit, 1x gap 0.5s, tail 1.0s".to_string()));
}

#[test]
fn keep_temp_skips_cleanup() {
    let (result, events, jobs) = run(&[(320, 180), (320, 180)], true);
    assert!(result.is_ok());
    assert!(!jobs.iter().any(|job| matches!(job, Job::RemoveDir { .. })));
    assert!(matches!(events.last(), Some(BuildEvent::Done { .. })));
}

#[test]
fn failed_encode_reports_the_segment_and_keeps_the_temp_dir() {
    let entries = vec![entry("/w/i/a.png", "a.png"), entry("/w/i/a.wav", "a.wav"), entry("/w/i/z.png", "z.png")];
    let found = discover_entries("/w/i", true, &entries).unwrap();
    let (mut m, r) = BuildMachine::start(found, build_options("/w/o.mp4", false), "/w/run".to_string(), '/');
    assert_eq!(
        r.events,
        vec![
            BuildEvent::Discover { units: 1, orphans: 1 },
            BuildEvent::Warn { message: "orphan: z.png (no audio)".to_string() }
        ]
    );
    let r = m.step(Outcome::ImageProbed(Ok(size(4, 4))));
    assert!(matches!(r.job, Job::ProbeAudio { .. }));
    let r = m.step(Outcome::AudioProbed(Ok(700)));
    assert!(matches!(r.job, Job::CreateDir { ref path } if path == "/w/run"));
    let r = m.step(Outcome::DirCreated(Ok(())));
    assert!(matches!(r.job, Job::Encode { .. }));
    let r = m.step(Outcome::Encoded {
        result: Err(VideoGenError::runtime("ffmpeg failed".to_string())),
        elapsed_ms: 5,
    });
    assert!(matches!(r.job, Job::Fail(ref e) if e.message() == "ffmpeg failed"));
    assert!(matches!(r.events[0], BuildEvent::Segment { status: video_gen::SegmentStatus::Fail, index: 1, .. }));
    assert!(!m.accepts_outcome(&Outcome::DirRemoved { result: Ok(()), elapsed_ms: 1 }));
}
