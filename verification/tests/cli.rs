use video_gen::cli::{log_mode, non_negative_error, parse_integer, parse_u32};
use video_gen::log::format_error;
use video_gen::{ErrorKind, LogMode, VideoGenError};

#[test]
fn invalid_duration_exits_with_user_error_code() {
    let err = non_negative_error("lead-in", "-1");
    assert_eq!(err.exit_code(), 2);
    let stderr = format_error(log_mode(false, false), err.message(), err.exit_code());
    assert!(stderr.contains("--lead-in"));
    assert!(stderr.contains("non-negative"));
}

#[test]
fn json_flag_wins_over_quiet() {
    assert_eq!(log_mode(true, true), LogMode::Json);
    assert_eq!(log_mode(false, true), LogMode::Quiet);
    assert_eq!(log_mode(false, false), LogMode::Text);
}

#[test]
fn integers_parse_like_str_parse() {
    assert_eq!(parse_u32("30"), Some(30));
    assert_eq!(parse_u32("+7"), Some(7));
    assert_eq!(parse_u32("007"), Some(7));
    assert_eq!(parse_u32("4294967295"), Some(u32::MAX));
    assert_eq!(parse_u32("4294967296"), None);
    assert_eq!(parse_u32("99999999999999999999x"), None);
    assert_eq!(parse_u32(""), None);
    assert_eq!(parse_u32("+"), None);
    assert_eq!(parse_u32("-1"), None);
    assert_eq!(parse_u32(" 1"), None);
    assert_eq!(parse_u32("1.5"), None);
}

#[test]
fn integer_flags_must_lie_in_their_range() {
    assert_eq!(parse_integer("fps", "240", 1, 240).unwrap(), 240);
    let err = parse_integer("fps", "241", 1, 240).unwrap_err();
    assert!(matches!(err, VideoGenError::User { .. }));
    assert_eq!(err.message(), "--fps: expected integer in [1,240], got \"241\"");
    let err = parse_integer("crf", "abc", 0, 51).unwrap_err();
    assert_eq!(err.message(), "--crf: expected integer in [0,51], got \"abc\"");
    assert_eq!(err.kind(), ErrorKind::User);
}

#[test]
fn reading_back_a_decimal_gives_the_number() {
    for n in [0u32, 7, 30, 240, 65_536, u32::MAX] {
        assert_eq!(parse_u32(&video_gen::text::decimal_string(n as u64)), Some(n));
    }
}
