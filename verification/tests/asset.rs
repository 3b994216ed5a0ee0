use gristmill::asset::{
    base_path, decimal_text, get_path, join_path, texture_data, AssetError, ErrorKind,
    ImageFailure, IoFailure, TextureData,
};

fn missing() -> IoFailure {
    IoFailure {
        not_found: true,
        os_code: Some(2),
        text: String::from("No such file or directory (os error 2)"),
    }
}

fn denied() -> IoFailure {
    IoFailure {
        not_found: false,
        os_code: Some(13),
        text: String::from("Permission denied (os error 13)"),
    }
}

#[test]
fn asset_paths_start_at_the_working_directory() {
    assert_eq!(base_path(), "");
    assert_eq!(get_path("config", "controls.yaml"), "config/controls.yaml");
    assert_eq!(get_path("images", "ui/button.png"), "images/ui/button.png");
    assert_eq!(get_path("fonts/", "a.ttf"), "fonts/a.ttf");
    assert_eq!(get_path("", "a.ttf"), "a.ttf");
    assert_eq!(get_path("config", "/etc/x.yaml"), "/etc/x.yaml");
    assert_eq!(get_path("config", ""), "config/");
}

#[test]
fn path_parts_are_joined_with_one_separator() {
    assert_eq!(join_path("a", "b"), "a/b");
    assert_eq!(join_path("a/", "b"), "a/b");
    assert_eq!(join_path("a", "/b"), "/b");
    assert_eq!(join_path("", "b"), "b");
    assert_eq!(join_path("", ""), "");
    assert_eq!(join_path("/", "b"), "/b");
    assert_eq!(join_path("gr\u{fc}n", "bl\u{e4}u"), "gr\u{fc}n/bl\u{e4}u");
}

#[test]
fn numbers_are_written_in_decimal() {
    assert_eq!(decimal_text(0), "0");
    assert_eq!(decimal_text(7), "7");
    assert_eq!(decimal_text(10), "10");
    assert_eq!(decimal_text(1234567890), "1234567890");
    assert_eq!(decimal_text(-120), "-120");
    assert_eq!(decimal_text(i32::MAX), "2147483647");
    assert_eq!(decimal_text(i32::MIN), "-2147483648");
}

#[test]
fn io_error_keeps_the_failure() {
    let error = AssetError::new_io(String::from("a/b.txt"), false, missing());
    assert_eq!(error.path, "a/b.txt");
    assert!(!error.write);
    assert_eq!(error.kind, ErrorKind::IoError(missing()));
    assert_eq!(error.info, "");
    assert!(error.not_found());
    assert!(!AssetError::new_io(String::from("a/b.txt"), true, denied()).not_found());
}

#[test]
fn format_errors_are_not_missing_files() {
    let error = AssetError::new_yaml(String::from("a.yaml"), false, String::from("bad indent"));
    assert_eq!(error.kind, ErrorKind::Format);
    assert_eq!(error.info, "bad indent");
    assert!(!error.not_found());
    let font = AssetError::invalid_font(String::from("a.ttf"));
    assert_eq!(font.kind, ErrorKind::Format);
    assert_eq!(font.info, "Invalid font");
    assert!(!font.write);
    assert!(!font.not_found());
}

#[test]
fn image_errors_are_sorted_by_kind() {
    let io = AssetError::new_png(String::from("a.png"), ImageFailure::Io(missing()));
    assert_eq!(io.kind, ErrorKind::IoError(missing()));
    assert_eq!(io.info, "");
    assert!(io.not_found());
    let format = AssetError::new_png(
        String::from("a.png"),
        ImageFailure::Format(String::from("bad signature")),
    );
    assert_eq!(format.kind, ErrorKind::Format);
    assert_eq!(format.info, "bad signature");
    let other =
        AssetError::new_png(String::from("a.png"), ImageFailure::Other(String::from("limits")));
    assert_eq!(other.kind, ErrorKind::Other);
    assert_eq!(other.info, "limits");
    assert!(!other.write);
}

#[test]
fn message_says_what_was_done_to_which_file() {
    assert_eq!(
        AssetError::new_io(String::from("config/x.yaml"), false, missing()).message(),
        "Error reading config/x.yaml: No such file or directory (os error 2)"
    );
    assert_eq!(
        AssetError::new_io(String::from("config/x.yaml"), true, denied()).message(),
        "Error writing config/x.yaml: Permission denied (os error 13)"
    );
    assert_eq!(
        AssetError::new_yaml(String::from("a.yaml"), false, String::from("bad indent")).message(),
        "Error reading a.yaml: bad indent"
    );
    assert_eq!(
        AssetError::invalid_font(String::from("fonts/a.ttf")).message(),
        "Error reading fonts/a.ttf: Invalid font"
    );
}

#[test]
fn missing_file_while_writing_is_a_missing_directory() {
    assert_eq!(
        AssetError::new_io(String::from("out/x.yaml"), true, missing()).message(),
        "Error writing out/x.yaml: The parent directory does not exist. (os error 2)"
    );
    let unnumbered = IoFailure { not_found: true, os_code: None, text: String::from("gone") };
    assert_eq!(
        AssetError::new_io(String::from("out/x.yaml"), true, unnumbered).message(),
        "Error writing out/x.yaml: The parent directory does not exist."
    );
}

#[test]
fn decoded_frame_is_cut_to_its_size() {
    assert_eq!(
        texture_data(2, 1, 8, vec![1, 2, 3, 4, 5, 6, 7, 8, 9, 9]),
        Some(TextureData { width: 2, height: 1, bytes: vec![1, 2, 3, 4, 5, 6, 7, 8] })
    );
    assert_eq!(
        texture_data(1, 1, 8, vec![1, 2, 3, 4]),
        Some(TextureData { width: 1, height: 1, bytes: vec![1, 2, 3, 4] })
    );
    assert_eq!(texture_data(65536, 1, 0, vec![]), None);
    assert_eq!(texture_data(1, 65536, 0, vec![]), None);
    assert_eq!(
        texture_data(65535, 65535, 0, vec![]),
        Some(TextureData { width: 65535, height: 65535, bytes: vec![] })
    );
}
