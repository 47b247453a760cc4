use matting::decimal::u64_to_decimal;
use matting::paths::extension_of;
use matting::paths::save_path_for;
use matting::picker::folder_pick_result;
use matting::MattingError;

#[test]
fn extension_of_common_paths() {
    assert_eq!(extension_of("a/b.png").as_deref(), Some("png"));
    assert_eq!(extension_of("archive.tar.gz").as_deref(), Some("gz"));
    assert_eq!(extension_of("/abs/path/pic.jpeg").as_deref(), Some("jpeg"));
    assert_eq!(extension_of("trailing.dot.").as_deref(), Some(""));
    assert_eq!(extension_of("dir/.conf.d").as_deref(), Some("d"));
}

#[test]
fn extension_of_paths_without_one() {
    assert_eq!(extension_of("plain"), None);
    assert_eq!(extension_of(""), None);
    assert_eq!(extension_of("dir.ext/plain"), None);
    assert_eq!(extension_of(".bashrc"), None);
    assert_eq!(extension_of("home/.bashrc"), None);
    assert_eq!(extension_of("dir/"), None);
}

#[test]
fn save_path_concatenates_dir_timestamp_and_extension() {
    assert_eq!(save_path_for("/out", 1234, "png"), "/out/1234.png");
    assert_eq!(save_path_for("", 0, ""), "/0.");
}

#[test]
fn decimal_rendering_is_exact() {
    assert_eq!(u64_to_decimal(0), "0");
    assert_eq!(u64_to_decimal(9), "9");
    assert_eq!(u64_to_decimal(10), "10");
    assert_eq!(u64_to_decimal(1700000000123), "1700000000123");
    assert_eq!(u64_to_decimal(u64::MAX), "18446744073709551615");
}

#[test]
fn cancelled_folder_pick_is_the_empty_string() {
    assert_eq!(folder_pick_result(None), "");
}

#[test]
fn selected_folder_is_returned_verbatim() {
    assert_eq!(folder_pick_result(Some("/home/u/pics".to_string())), "/home/u/pics");
}

#[test]
fn error_messages_are_descriptive() {
    assert_eq!(
        MattingError::IoError("no such file".to_string()).message(),
        "I/O error: no such file"
    );
    assert_eq!(
        MattingError::InvalidPath.message(),
        "invalid path: the file has no extension"
    );
    assert_eq!(MattingError::Forbidden(403).message(), "forbidden: HTTP status 403");
    assert_eq!(
        MattingError::NetworkError("HTTP status 500".to_string()).message(),
        "network error: HTTP status 500"
    );
}
