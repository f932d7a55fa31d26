use video_gen::{discover_entries, DiscoverResult, FileEntry, Orphan, OrphanKind, VideoGenError};

const ROOT: &str = "/work/input";

fn entry(path: String, name: &str, is_file: bool) -> FileEntry {
    FileEntry {
        path,
        file_name: Some(name.to_string()),
        is_file,
    }
}

/// The entries a scan of ROOT, ROOT/images and ROOT/audio lists when the
/// given files (relative to ROOT) exist.
fn scan(files: &[&str]) -> Vec<FileEntry> {
    let mut root = Vec::new();
    let mut images = Vec::new();
    let mut audio = Vec::new();
    let mut has_images = false;
    let mut has_audio = false;
    for f in files {
        if let Some(name) = f.strip_prefix("images/") {
            has_images = true;
            images.push(entry(format!("{ROOT}/images/{name}"), name, true));
        } else if let Some(name) = f.strip_prefix("audio/") {
            has_audio = true;
            audio.push(entry(format!("{ROOT}/audio/{name}"), name, true));
        } else {
            root.push(entry(format!("{ROOT}/{f}"), f, true));
        }
    }
    if has_images {
        root.push(entry(format!("{ROOT}/images"), "images", false));
    }
    if has_audio {
        root.push(entry(format!("{ROOT}/audio"), "audio", false));
    }
    root.extend(images);
    root.extend(audio);
    root
}

fn discover(files: &[&str]) -> Result<DiscoverResult, VideoGenError> {
    discover_entries(ROOT, true, &scan(files))
}

fn path(rel: &str) -> String {
    format!("{ROOT}/{rel}")
}

#[test]
fn pairs_by_basename_in_flat_input_dir() {
    let result = discover(&["01_a.jpg", "01_a.mp3", "02_b.png", "02_b.wav"]).unwrap();

    assert_eq!(
        result
            .pairs
            .iter()
            .map(|pair| pair.basename.as_str())
            .collect::<Vec<_>>(),
        vec!["01_a", "02_b"]
    );
    assert!(result.orphans.is_empty());
}

#[test]
fn scans_images_and_audio_subdirectories() {
    let result = discover(&["images/01_a.jpg", "audio/01_a.mp3"]).unwrap();

    assert_eq!(result.pairs[0].basename, "01_a");
    assert_eq!(result.pairs[0].image, path("images/01_a.jpg"));
    assert_eq!(result.pairs[0].audio, path("audio/01_a.mp3"));
}

#[test]
fn mixes_flat_and_subdir_layouts() {
    let result = discover(&["01_a.jpg", "audio/01_a.mp3", "images/02_b.png", "02_b.wav"]).unwrap();

    assert_eq!(
        result
            .pairs
            .iter()
            .map(|pair| pair.basename.as_str())
            .collect::<Vec<_>>(),
        vec!["01_a", "02_b"]
    );
}

#[test]
fn reports_image_without_audio_as_orphan() {
    let result = discover(&["01_a.jpg", "02_b.jpg", "02_b.mp3"]).unwrap();

    assert_eq!(result.pairs[0].basename, "02_b");
    assert_eq!(
        result.orphans,
        vec![Orphan {
            kind: OrphanKind::Image,
            basename: "01_a".to_string(),
            path: path("01_a.jpg"),
        }]
    );
}

#[test]
fn reports_audio_without_image_as_orphan() {
    let result = discover(&["01_a.mp3", "02_b.jpg", "02_b.mp3"]).unwrap();

    assert_eq!(
        result.orphans,
        vec![Orphan {
            kind: OrphanKind::Audio,
            basename: "01_a".to_string(),
            path: path("01_a.mp3"),
        }]
    );
}

#[test]
fn rejects_duplicate_image_basename() {
    let err = discover(&["01_a.jpg", "images/01_a.png", "01_a.mp3"]).unwrap_err();

    assert!(err.message().contains("ambiguous basename: 01_a"));
    assert!(matches!(err, VideoGenError::User { .. }));
}

#[test]
fn rejects_duplicate_audio_basename() {
    let err = discover(&["01_a.jpg", "01_a.mp3", "audio/01_a.wav"]).unwrap_err();

    assert!(err.message().contains("ambiguous basename: 01_a"));
}

#[test]
fn rejects_when_no_pair_exists() {
    let err = discover(&["01_a.jpg"]).unwrap_err();

    assert!(err.message().contains("no image/audio pairs found"));
}

#[test]
fn rejects_missing_input_dir() {
    let err = discover_entries("/work/missing", false, &[]).unwrap_err();

    assert!(err.message().contains("input dir does not exist"));
    assert_eq!(err.message(), "input dir does not exist: /work/missing");
}

#[test]
fn ignores_unrelated_extensions() {
    let result = discover(&["01_a.jpg", "01_a.mp3", "README.txt", "01_a.aif"]).unwrap();

    assert_eq!(result.pairs[0].basename, "01_a");
    assert!(result.orphans.is_empty());
}

#[test]
fn sorts_pairs_and_orphans_by_basename() {
    let result = discover(&["10_x.jpg", "10_x.mp3", "02_a.jpg", "02_a.mp3", "03_orphan.jpg"]).unwrap();

    assert_eq!(
        result
            .pairs
            .iter()
            .map(|pair| pair.basename.as_str())
            .collect::<Vec<_>>(),
        vec!["02_a", "10_x"]
    );
    assert_eq!(
        result
            .orphans
            .iter()
            .map(|orphan| orphan.basename.as_str())
            .collect::<Vec<_>>(),
        vec!["03_orphan"]
    );
}

#[test]
fn ambiguous_message_lists_every_match_in_scan_order() {
    let err = discover(&["01_a.jpg", "images/01_a.png", "01_a.mp3"]).unwrap_err();

    assert_eq!(
        err.message(),
        format!(
            "ambiguous basename: 01_a\n  matched 2 images: {}, {}\n  v0.1 only supports 1:1 pairing — 请合并或重命名",
            path("01_a.jpg"),
            path("images/01_a.png")
        )
    );
}

#[test]
fn image_duplicates_are_reported_before_audio_duplicates() {
    let err = discover(&["b.mp3", "audio/b.wav", "a.jpg", "images/a.png"]).unwrap_err();

    assert!(err.message().starts_with("ambiguous basename: a\n  matched 2 images"));
}

#[test]
fn extensions_match_without_regard_to_ascii_case() {
    let result = discover(&["01_A.JPG", "01_A.Mp3"]).unwrap();
    assert_eq!(result.pairs[0].basename, "01_A");
}

#[test]
fn only_the_last_dot_starts_the_extension() {
    let result = discover(&["a.b.png", "a.b.flac", ".png", ".wav"]).unwrap();
    assert_eq!(result.pairs.len(), 1);
    assert_eq!(result.pairs[0].basename, "a.b");
    assert!(result.orphans.is_empty());
}

#[test]
fn skips_directories_and_names_that_are_not_utf8() {
    let entries = vec![
        entry(path("x.jpg"), "x.jpg", false),
        FileEntry {
            path: path("bad.jpg"),
            file_name: None,
            is_file: true,
        },
        entry(path("y.jpg"), "y.jpg", true),
        entry(path("y.wav"), "y.wav", true),
    ];
    let result = discover_entries(ROOT, true, &entries).unwrap();
    assert_eq!(result.pairs.len(), 1);
    assert!(result.orphans.is_empty());
}

#[test]
fn sorts_by_code_point_not_by_length() {
    let result = discover(&["b.jpg", "b.mp3", "ab.jpg", "ab.mp3", "a.jpg", "a.mp3", "B.jpg", "B.mp3"]).unwrap();
    assert_eq!(
        result.pairs.iter().map(|p| p.basename.as_str()).collect::<Vec<_>>(),
        vec!["B", "a", "ab", "b"]
    );
}

#[test]
fn other_files_anywhere_change_nothing() {
    let plain = discover(&["01_a.jpg", "01_a.mp3", "02_b.png"]).unwrap();
    let cluttered = discover(&[
        "notes.txt",
        "01_a.jpg",
        "images/cover.psd",
        "01_a.aif",
        "01_a.mp3",
        "Makefile",
        "02_b.png",
        "audio/02_b.ogg",
    ])
    .unwrap();
    assert!(cluttered.pairs == plain.pairs);
    assert!(cluttered.orphans == plain.orphans);
    assert_eq!(cluttered.pairs.len(), 1);
    assert_eq!(cluttered.orphans.len(), 1);
}
