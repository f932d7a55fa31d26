use video_gen::ffmpeg::{choose_binary, env_key, tool_name, Tool};

fn some(s: &str) -> Option<String> {
    Some(s.to_string())
}

#[test]
fn explicit_binary_path_wins() {
    let result = choose_binary(some("/custom/ffmpeg"), some("/env/ffmpeg"), some("/no/where/ffmpeg"), tool_name(Tool::Ffmpeg, ""));
    assert_eq!(result, "/custom/ffmpeg");
}

#[test]
fn env_override_is_used_when_set_and_non_empty() {
    assert_eq!(env_key(Tool::Ffmpeg), "VIDEO_GEN_FFMPEG");
    let result = choose_binary(None, some("/env/ffmpeg"), None, tool_name(Tool::Ffmpeg, ""));
    assert_eq!(result, "/env/ffmpeg");
}

#[test]
fn empty_env_override_is_ignored() {
    let result = choose_binary(None, some("   "), None, tool_name(Tool::Ffmpeg, ""));
    assert_eq!(result, "ffmpeg");
}

#[test]
fn sibling_binary_wins_before_path_lookup() {
    let result = choose_binary(None, None, some("/opt/app/ffmpeg"), tool_name(Tool::Ffmpeg, ""));
    assert_eq!(result, "/opt/app/ffmpeg");
}

#[test]
fn falls_back_to_bare_name_for_path_lookup() {
    let result = choose_binary(None, None, None, tool_name(Tool::Ffmpeg, ""));
    assert_eq!(result, "ffmpeg");
}

#[test]
fn ffprobe_uses_ffprobe_env_key() {
    assert_eq!(env_key(Tool::Ffprobe), "VIDEO_GEN_FFPROBE");
    let result = choose_binary(None, some("/env/ffprobe"), None, tool_name(Tool::Ffprobe, ""));
    assert_eq!(result, "/env/ffprobe");
}

#[test]
fn env_override_is_trimmed() {
    let result = choose_binary(None, some("\t /env/ffmpeg \u{3000}\n"), None, tool_name(Tool::Ffmpeg, ".exe"));
    assert_eq!(result, "/env/ffmpeg");
    assert_eq!(tool_name(Tool::Ffprobe, ".exe"), "ffprobe.exe");
}
