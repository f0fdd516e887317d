use ripple::output::{
    confirm_output, place_output, plan_output, validate_output_path, FileId, Occupant,
};
use ripple::path::FilePath;

fn path(text: &str) -> FilePath {
    FilePath::from_text(text)
}

fn asked(text: &str) -> Result<FilePath, String> {
    validate_output_path(
        path(text),
        &path("/in/before.png"),
        &path("/in/after.png"),
        Some(path("/out")),
        Occupant::Vacant,
    )
}

fn accepted(text: &str) -> Vec<u8> {
    asked(text).unwrap().bytes
}

fn present(is_symlink: bool, is_file: bool, before: Option<u64>, after: Option<u64>) -> Occupant {
    let id = |inode: u64| FileId { device: 1, inode };
    Occupant::Present {
        is_symlink,
        is_file,
        id: id(5),
        before: before.map(id),
        after: after.map(id),
    }
}

#[test]
fn videos_are_placed_in_the_folder_without_links() {
    assert_eq!(accepted("/link/ripple.mp4"), b"/out/ripple.mp4".to_vec());
    assert_eq!(accepted("/link/ripple.MP4"), b"/out/ripple.MP4".to_vec());
}

#[test]
fn a_missing_extension_is_added() {
    assert_eq!(accepted("/link/ripple"), b"/out/ripple.mp4".to_vec());
    assert_eq!(accepted("/link/.hidden"), b"/out/.hidden.mp4".to_vec());
    assert_eq!(accepted("ripple/"), b"/out/ripple.mp4".to_vec());
}

#[test]
fn an_extension_that_is_not_text_is_replaced() {
    let plan = plan_output(FilePath {
        bytes: vec![b'/', b'a', b'.', 0xff],
    })
    .unwrap();
    assert_eq!(plan.path.bytes, b"/a.mp4".to_vec());
    assert_eq!(plan.folder.bytes, b"/".to_vec());
}

#[test]
fn other_extensions_are_refused() {
    for text in ["/link/ripple.mov", "/link/ripple.mp4.txt", "/link/ripple.", "/a.mp"] {
        assert_eq!(
            asked(text).unwrap_err(),
            "Save the video with an .mp4 extension."
        );
    }
}

#[test]
fn a_folder_and_a_name_are_needed() {
    assert_eq!(asked("/").unwrap_err(), "Choose a folder for the MP4.");
    assert_eq!(asked("").unwrap_err(), "Choose a folder for the MP4.");
    assert_eq!(asked("/a/..").unwrap_err(), "Enter a file name for the MP4.");
    assert_eq!(
        validate_output_path(
            path("/gone/ripple.mp4"),
            &path("/b"),
            &path("/c"),
            None,
            Occupant::Vacant
        )
        .unwrap_err(),
        "The selected output folder is unavailable."
    );
}

#[test]
fn source_images_are_not_replaced() {
    let plan = plan_output(path("x/clip.mp4")).unwrap();
    assert_eq!(plan.folder.bytes, b"x".to_vec());
    let message = "The MP4 cannot replace one of the source images.";
    let source = path("/out//clip.mp4");
    let other = path("/other.png");
    assert_eq!(
        place_output(&plan, Some(path("/out")), &source, &other).unwrap_err(),
        message
    );
    assert_eq!(
        place_output(&plan, Some(path("/out")), &other, &source).unwrap_err(),
        message
    );
    assert_eq!(
        place_output(&plan, Some(path("/out/")), &other, &other).unwrap().bytes,
        b"/out/clip.mp4".to_vec()
    );
    assert_eq!(confirm_output(present(false, true, Some(5), None)).unwrap_err(), message);
    assert_eq!(confirm_output(present(false, true, Some(4), Some(5))).unwrap_err(), message);
}

#[test]
fn only_regular_files_are_replaced() {
    assert!(confirm_output(Occupant::Vacant).is_ok());
    assert!(confirm_output(present(false, true, None, None)).is_ok());
    assert!(confirm_output(present(false, true, Some(4), Some(6))).is_ok());
    assert_eq!(
        confirm_output(present(true, false, None, None)).unwrap_err(),
        "Choose a regular file instead of a symbolic link."
    );
    assert_eq!(
        confirm_output(present(false, false, None, None)).unwrap_err(),
        "The output location is not a regular file."
    );
    assert!(validate_output_path(
        path("/link/a.mp4"),
        &path("/b"),
        &path("/c"),
        Some(path("/out")),
        present(true, true, None, None)
    )
    .is_err());
}

#[test]
fn the_same_number_on_another_device_is_another_file() {
    let occupant = Occupant::Present {
        is_symlink: false,
        is_file: true,
        id: FileId { device: 1, inode: 5 },
        before: Some(FileId { device: 2, inode: 5 }),
        after: None,
    };
    assert!(confirm_output(occupant).is_ok());
}
