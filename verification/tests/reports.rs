use ripple::path::FilePath;
use ripple::report::{make_report, sanitize_renderer_error};

#[test]
fn renderer_errors_do_not_echo_selected_paths() {
    let before = FilePath::from_text("/Users/example/private/before.png");
    let after = FilePath::from_text("/Users/example/private/after.png");
    let output = FilePath::from_text("/Users/example/Desktop/ripple.mp4");
    let error = sanitize_renderer_error(
        b"Could not read /Users/example/private/before.png",
        [&before, &after, &output],
    );

    assert_eq!(error, "Could not read selected file");
    assert!(!error.contains("/Users"));
}

#[test]
fn empty_renderer_errors_use_a_safe_message() {
    assert_eq!(
        sanitize_renderer_error(b"", [&FilePath::from_text("/tmp/input.png")]),
        "The ripple video could not be rendered."
    );
}

#[test]
fn white_space_alone_is_nothing_to_say() {
    assert_eq!(
        sanitize_renderer_error::<0>(b" \n\t", []),
        "The ripple video could not be rendered."
    );
}

#[test]
fn every_path_is_replaced_wherever_it_stands() {
    let first = FilePath::from_text("/a.png");
    let second = FilePath::from_text("/b.png");
    assert_eq!(
        sanitize_renderer_error(b"  /b.png and /a.png/a.png\n", [&first, &second]),
        "selected file and selected fileselected file"
    );
}

#[test]
fn reports_are_cut_after_replacement() {
    let long = "x".repeat(300);
    assert_eq!(sanitize_renderer_error::<0>(long.as_bytes(), []), "x".repeat(240));
    let exact = "\u{e9}".repeat(240);
    assert_eq!(sanitize_renderer_error::<0>(exact.as_bytes(), []), exact);
    let path = FilePath::from_text("/a");
    let said = format!("/a{}", "x".repeat(300));
    let report = sanitize_renderer_error(said.as_bytes(), [&path]);
    assert_eq!(report, format!("selected file{}", "x".repeat(227)));
}

#[test]
fn bytes_that_are_not_text_are_shown_as_such() {
    assert_eq!(
        sanitize_renderer_error::<0>(&[b'a', 0xff, b'b'], []),
        "a\u{fffd}b"
    );
    let path = FilePath {
        bytes: vec![b'/', 0xff],
    };
    assert_eq!(
        sanitize_renderer_error(&[b'/', 0xff, b'!'], [&path]),
        "selected file!"
    );
}

#[test]
fn an_empty_path_stands_everywhere() {
    assert_eq!(
        sanitize_renderer_error(b"ab", [&FilePath::from_text("")]),
        "selected fileaselected filebselected file"
    );
}

#[test]
fn reports_are_made_from_texts() {
    let paths = vec!["/a.png".to_owned(), "file".to_owned()];
    assert_eq!(
        make_report(" no /a.png ", &paths),
        "no selected selected file"
    );
    assert_eq!(
        make_report("", &paths),
        "The ripple video could not be rendered."
    );
}

#[test]
fn a_path_that_runs_into_the_marker_can_come_back() {
    let path = FilePath::from_text("/photos");
    assert_eq!(
        sanitize_renderer_error(b"/photo/photos", [&path]),
        "/photoselected file"
    );
}

#[test]
fn paths_are_replaced_in_errors_that_are_not_all_text() {
    let path = FilePath::from_text("/in/before.png");
    let mut stderr = b"/in/before.png ".to_vec();
    stderr.push(0xff);
    assert_eq!(
        sanitize_renderer_error(&stderr, [&path]),
        "selected file \u{fffd}"
    );
}

#[test]
fn white_space_alone_is_nothing_to_say_of_given_paths() {
    let before = FilePath::from_text("/in/before.png");
    let mut folder = b"/in/".to_vec();
    folder.extend_from_slice(&[0xe2, 0x82]);
    folder.extend_from_slice(b"/after.png");
    let after = FilePath { bytes: folder };
    for stderr in [&b" "[..], b"\n", b"\t\r\n", b" \x0b\x0c "] {
        assert_eq!(
            sanitize_renderer_error(stderr, [&before, &after]),
            "The ripple video could not be rendered."
        );
    }
}

#[test]
fn white_space_around_bytes_changes_no_report() {
    let path = FilePath::from_text("/in/before.png");
    for inner in [
        &[0xff][..],
        &[0x80, b'a', 0xe2, 0x82],
        &[0xf0, 0x9f, 0x98],
        &[0xe2, 0x82, b' ', 0xac],
        b"/in/before.png \xc3",
        b"plain",
        b"",
    ] {
        let mut stderr = b" \t\n".to_vec();
        stderr.extend_from_slice(inner);
        stderr.extend_from_slice(b"\r\n ");
        assert_eq!(
            sanitize_renderer_error(&stderr, [&path]),
            sanitize_renderer_error(inner, [&path])
        );
    }
    assert_eq!(
        sanitize_renderer_error(&[b' ', 0xe2, 0x82, b'\n'], [&path]),
        "\u{fffd}"
    );
}

#[test]
fn a_path_in_a_folder_that_is_not_text_is_not_echoed() {
    let mut bytes = b"/in/".to_vec();
    bytes.extend_from_slice(&[0xff, 0xe2, 0x82]);
    bytes.extend_from_slice(b"/before.png");
    let path = FilePath { bytes: bytes.clone() };
    let mut stderr = b"Could not read ".to_vec();
    stderr.extend_from_slice(&bytes);
    assert_eq!(
        sanitize_renderer_error(&stderr, [&path]),
        "Could not read selected file"
    );
}

#[test]
fn a_path_with_a_name_that_is_not_text_is_not_echoed() {
    let mut bytes = b"/in/before".to_vec();
    bytes.push(0xc3);
    bytes.extend_from_slice(b".PNG");
    let path = FilePath { bytes: bytes.clone() };
    let mut stderr = bytes.clone();
    stderr.extend_from_slice(b": no such file\n");
    assert_eq!(
        sanitize_renderer_error(&stderr, [&path]),
        "selected file: no such file"
    );
}
