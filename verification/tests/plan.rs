use video_gen::{plan_segments, PlanOptions, Segment, Unit, VideoGenError};

fn unit(basename: &str, duration_ms: u64) -> Unit {
    Unit {
        basename: basename.to_string(),
        image_path: format!("/img/{basename}.jpg"),
        audio_path: format!("/aud/{basename}.mp3"),
        audio_duration_ms: duration_ms,
    }
}

fn s(text: &str) -> String {
    text.to_string()
}

#[test]
fn rejects_empty_units() {
    let err = plan_segments(&[], &PlanOptions::default()).unwrap_err();
    assert!(matches!(err, VideoGenError::User { .. }));
    assert!(err.message().contains("at least one unit"));
}

#[test]
fn one_unit_without_padding_creates_one_segment() {
    let segments = plan_segments(
        &[unit("a", 1000)],
        &PlanOptions {
            lead_in_ms: 0,
            tail_ms: 0,
            gap_ms: 0,
        },
    )
    .unwrap();

    assert_eq!(
        segments,
        vec![Segment::Unit {
            image: s("/img/a.jpg"),
            audio: s("/aud/a.mp3"),
            duration_ms: 1000,
        }]
    );
}

#[test]
fn skips_zero_duration_lead_in_tail_and_gap() {
    let segments = plan_segments(
        &[unit("a", 1000), unit("b", 2000)],
        &PlanOptions {
            lead_in_ms: 0,
            tail_ms: 0,
            gap_ms: 0,
        },
    )
    .unwrap();

    assert_eq!(
        segments,
        vec![
            Segment::Unit {
                image: s("/img/a.jpg"),
                audio: s("/aud/a.mp3"),
                duration_ms: 1000,
            },
            Segment::Unit {
                image: s("/img/b.jpg"),
                audio: s("/aud/b.mp3"),
                duration_ms: 2000,
            },
        ]
    );
}

#[test]
fn three_units_with_full_padding() {
    let segments = plan_segments(
        &[unit("a", 1000), unit("b", 2000), unit("c", 3000)],
        &PlanOptions {
            lead_in_ms: 2000,
            tail_ms: 1000,
            gap_ms: 500,
        },
    )
    .unwrap();

    assert_eq!(
        segments,
        vec![
            Segment::LeadIn {
                image: s("/img/a.jpg"),
                duration_ms: 2000,
            },
            Segment::Unit {
                image: s("/img/a.jpg"),
                audio: s("/aud/a.mp3"),
                duration_ms: 1000,
            },
            Segment::Gap {
                image: s("/img/a.jpg"),
                duration_ms: 500,
            },
            Segment::Unit {
                image: s("/img/b.jpg"),
                audio: s("/aud/b.mp3"),
                duration_ms: 2000,
            },
            Segment::Gap {
                image: s("/img/b.jpg"),
                duration_ms: 500,
            },
            Segment::Unit {
                image: s("/img/c.jpg"),
                audio: s("/aud/c.mp3"),
                duration_ms: 3000,
            },
            Segment::Tail {
                image: s("/img/c.jpg"),
                duration_ms: 1000,
            },
        ]
    );
}

#[test]
fn lead_in_uses_first_image_and_tail_uses_last_image() {
    let segments = plan_segments(
        &[unit("a", 1000), unit("b", 1000)],
        &PlanOptions {
            lead_in_ms: 500,
            tail_ms: 500,
            gap_ms: 0,
        },
    )
    .unwrap();

    assert_eq!(
        segments.first().unwrap(),
        &Segment::LeadIn {
            image: s("/img/a.jpg"),
            duration_ms: 500,
        }
    );
    assert_eq!(
        segments.last().unwrap(),
        &Segment::Tail {
            image: s("/img/b.jpg"),
            duration_ms: 500,
        }
    );
}

#[test]
fn gap_uses_previous_unit_image() {
    let segments = plan_segments(
        &[unit("a", 1000), unit("b", 1000)],
        &PlanOptions {
            lead_in_ms: 0,
            tail_ms: 0,
            gap_ms: 300,
        },
    )
    .unwrap();

    assert!(segments.contains(&Segment::Gap {
        image: s("/img/a.jpg"),
        duration_ms: 300,
    }));
}

#[test]
fn total_duration_is_padding_plus_audio_plus_gaps() {
    let segments = plan_segments(
        &[unit("a", 1000), unit("b", 2000), unit("c", 3000)],
        &PlanOptions {
            lead_in_ms: 2000,
            tail_ms: 1000,
            gap_ms: 500,
        },
    )
    .unwrap();
    let total: u64 = segments.iter().map(|seg| seg.duration_ms()).sum();
    assert_eq!(total, 2000 + 6000 + 2 * 500 + 1000);
    assert_eq!(segments.len(), 3 + 1 + 1 + 2);
}

#[test]
fn segment_accessors_report_kind_image_and_duration() {
    let seg = Segment::Gap {
        image: s("/img/x.jpg"),
        duration_ms: 250,
    };
    assert_eq!(seg.kind(), video_gen::SegmentKind::Gap);
    assert_eq!(seg.image(), "/img/x.jpg");
    assert_eq!(seg.duration_ms(), 250);
}

#[test]
fn units_keep_their_order_and_gaps_sit_between_units() {
    let units = [unit("c", 300), unit("a", 100), unit("b", 200)];
    let segments = plan_segments(
        &units,
        &PlanOptions {
            lead_in_ms: 5,
            tail_ms: 7,
            gap_ms: 9,
        },
    )
    .unwrap();
    let audios: Vec<String> = segments
        .iter()
        .filter_map(|segment| match segment {
            Segment::Unit { audio, .. } => Some(audio.clone()),
            _ => None,
        })
        .collect();
    assert_eq!(audios, vec![s("/aud/c.mp3"), s("/aud/a.mp3"), s("/aud/b.mp3")]);
    assert!(matches!(segments[0], Segment::LeadIn { .. }));
    assert!(matches!(segments[segments.len() - 1], Segment::Tail { .. }));
    for (i, segment) in segments.iter().enumerate() {
        if let Segment::Gap { .. } = segment {
            assert!(matches!(segments[i - 1], Segment::Unit { .. }));
            assert!(matches!(segments[i + 1], Segment::Unit { .. }));
        }
    }
}
