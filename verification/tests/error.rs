use video_gen::{ErrorKind, ErrorPayload, VideoGenError};

#[test]
fn user_errors_exit_with_two_and_runtime_errors_with_one() {
    let user = VideoGenError::user("bad flag".to_string());
    let runtime = VideoGenError::runtime("ffmpeg crashed".to_string());
    assert_eq!(user.kind(), ErrorKind::User);
    assert_eq!(runtime.kind(), ErrorKind::Runtime);
    assert_eq!(user.exit_code(), 2);
    assert_eq!(runtime.exit_code(), 1);
    assert_eq!(user.message(), "bad flag");
}

#[test]
fn payload_carries_kind_code_and_message() {
    let p = VideoGenError::runtime("io".to_string()).payload();
    assert_eq!(
        p,
        ErrorPayload {
            kind: ErrorKind::Runtime,
            code: 1,
            message: "io".to_string(),
        }
    );
}
