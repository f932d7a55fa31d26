use video_gen::build::{
    default_output_file_name, has_trailing_separator, make_run_id, output_file_path,
    output_is_directory,
};

#[test]
fn uses_default_output_named_after_input_dir() {
    assert_eq!(default_output_file_name(Some("some-input")), "some-input.mp4");
    assert_eq!(default_output_file_name(None), "input.mp4");
    // The default path is not the user's, so an absent one stays a file.
    assert!(!output_is_directory(None, false, "output/some-input.mp4", true));
}

#[test]
fn returns_given_file_path_unchanged() {
    assert!(!output_is_directory(None, true, "/tmp/x/movie.mp4", true));
}

#[test]
fn appends_output_mp4_for_existing_directory() {
    assert!(output_is_directory(Some(true), true, "/tmp/x", false));
}

#[test]
fn appends_output_mp4_when_path_ends_with_separator() {
    assert!(output_is_directory(None, true, "/tmp/x/not-yet-created/", false));
    assert!(has_trailing_separator("dir\\"));
    assert!(!has_trailing_separator("dir"));
    assert!(!has_trailing_separator(""));
}

#[test]
fn treats_absent_extensionless_path_as_directory() {
    assert!(output_is_directory(None, true, "/tmp/x/not-yet-created", false));
}

#[test]
fn keeps_absent_path_with_extension_as_file_path() {
    assert!(!output_is_directory(None, true, "/tmp/x/unborn/movie.mp4", true));
}

#[test]
fn keeps_existing_file_path_unchanged() {
    assert!(!output_is_directory(Some(false), true, "/tmp/x/existing", false));
}

#[test]
fn run_id_is_build_and_utc_start_time() {
    assert_eq!(make_run_id(1_777_300_921), "build-20260427-144201");
    assert_eq!(make_run_id(0), "build-19700101-000000");
    assert_eq!(make_run_id(86_399), "build-19700101-235959");
}

#[test]
fn run_id_knows_leap_days_and_year_ends() {
    assert_eq!(make_run_id(951_782_400), "build-20000229-000000");
    assert_eq!(make_run_id(1_709_164_800), "build-20240229-000000");
    assert_eq!(make_run_id(4_102_444_799), "build-20991231-235959");
}

#[test]
fn output_file_goes_inside_a_directory_and_is_kept_otherwise() {
    assert_eq!(output_file_path("/tmp/x", true, '/'), "/tmp/x/output.mp4");
    assert_eq!(
        output_file_path("/tmp/x/not-yet-created/", true, '/'),
        "/tmp/x/not-yet-created/output.mp4"
    );
    assert_eq!(output_file_path("/tmp/x/movie.mp4", false, '/'), "/tmp/x/movie.mp4");
    assert_eq!(output_file_path("C:\\out", true, '\\'), "C:\\out\\output.mp4");
}
