use ripple::path::FilePath;
use ripple::selection::{
    clear_images, get_selection_state, has_supported_image_extension, image_extension_words,
    read_file_name, store_image, validate_image, ImageProbe, ImageSelection, ImageSlot,
    SelectedImage, SelectedImages, MAX_IMAGE_BYTES,
};

fn found(path: &str, is_file: bool, bytes: u64) -> ImageProbe {
    ImageProbe::Found {
        path: FilePath::from_text(path),
        is_file,
        bytes,
    }
}

fn image(path: &str, bytes: u64) -> SelectedImage {
    validate_image(found(path, true, bytes)).unwrap()
}

fn refused(probe: ImageProbe) -> String {
    validate_image(probe).unwrap_err()
}

#[test]
fn accepts_supported_image_extensions_case_insensitively() {
    assert!(has_supported_image_extension(&FilePath::from_text("before.PNG")));
    assert!(has_supported_image_extension(&FilePath::from_text("after.heic")));
    assert!(has_supported_image_extension(&FilePath::from_text("photo.JpEg")));
}

#[test]
fn rejects_unsupported_or_missing_image_extensions() {
    assert!(!has_supported_image_extension(&FilePath::from_text("video.mp4")));
    assert!(!has_supported_image_extension(&FilePath::from_text("image")));
    assert!(!has_supported_image_extension(&FilePath::from_text("archive.zip")));
}

#[test]
fn every_listed_extension_is_supported() {
    let words = image_extension_words();
    assert_eq!(words, ["png", "jpg", "jpeg", "heic", "heif", "tif", "tiff"]);
    for word in words {
        let lower = format!("/a/b.{}", word);
        let upper = format!("/a/b.{}", word.to_uppercase());
        assert!(has_supported_image_extension(&FilePath::from_text(&lower)));
        assert!(has_supported_image_extension(&FilePath::from_text(&upper)));
    }
}

#[test]
fn near_misses_of_extensions_are_not_supported() {
    for path in [
        ".png", "png", "a.pngg", "a.pn", "a.png.", "a.png/..", "a.p\u{f1}g", "a. png", "",
        "a.png/b",
    ] {
        assert!(!has_supported_image_extension(&FilePath::from_text(path)), "{}", path);
    }
    assert!(has_supported_image_extension(&FilePath::from_text("a.png/")));
    assert!(has_supported_image_extension(&FilePath::from_text("a.png/.")));
    assert!(has_supported_image_extension(&FilePath::from_text(".a.png")));
    assert!(!has_supported_image_extension(&FilePath {
        bytes: vec![b'a', b'.', 0xff],
    }));
}

#[test]
fn fit_images_are_described() {
    let chosen = image("/Users/example/before.png", 7);
    assert_eq!(chosen.path.bytes, b"/Users/example/before.png".to_vec());
    assert_eq!(chosen.file_name, "before.png");
    assert_eq!(chosen.bytes, 7);
    assert_eq!(image("/a.tiff", MAX_IMAGE_BYTES).bytes, 104_857_600);
    assert_eq!(image("/a.tiff", 1).bytes, 1);
}

#[test]
fn unfit_images_are_refused_with_their_reason() {
    assert_eq!(
        refused(ImageProbe::Unavailable),
        "The selected image is no longer available."
    );
    assert_eq!(
        refused(ImageProbe::Uninspectable),
        "The selected image could not be inspected."
    );
    assert_eq!(
        refused(found("/a.png", false, 7)),
        "Choose an image file, not a folder."
    );
    assert_eq!(refused(found("/a.png", true, 0)), "The selected image is empty.");
    assert_eq!(
        refused(found("/a.png", true, 104_857_601)),
        "Each image must be 100 MB or smaller."
    );
    assert_eq!(
        refused(found("/a.gif", true, 7)),
        "Choose a PNG, JPEG, HEIC, HEIF, TIFF, or TIF image."
    );
    assert_eq!(
        refused(ImageProbe::Found {
            path: FilePath {
                bytes: vec![b'/', 0xff, b'.', b'p', b'n', b'g'],
            },
            is_file: true,
            bytes: 7,
        }),
        "The selected image needs a valid file name."
    );
}

#[test]
fn the_first_reason_is_the_one_given() {
    assert_eq!(
        refused(found("/a.gif", false, 0)),
        "Choose an image file, not a folder."
    );
    assert_eq!(refused(found("/a.gif", true, 0)), "The selected image is empty.");
    assert_eq!(
        refused(found("/a.gif", true, u64::MAX)),
        "Each image must be 100 MB or smaller."
    );
}

#[test]
fn file_names_are_read_as_text() {
    assert_eq!(
        read_file_name(&FilePath::from_text("/a/\u{e9}t\u{e9}.png")),
        Some("\u{e9}t\u{e9}.png".to_owned())
    );
    assert_eq!(read_file_name(&FilePath::from_text("/")), None);
    assert_eq!(
        read_file_name(&FilePath {
            bytes: vec![b'a', 0xc3],
        }),
        None
    );
}

#[test]
fn a_selection_tells_name_and_size() {
    let selection = ImageSelection::from(&image("/private/a.png", 12));
    assert_eq!(selection.file_name, "a.png");
    assert_eq!(selection.bytes, 12);
}

#[test]
fn stored_images_are_told_and_cleared() {
    let mut images = SelectedImages::default();
    let snapshot = get_selection_state(Some(&images)).unwrap();
    assert!(snapshot.before.is_none() && snapshot.after.is_none());

    let told = store_image(Some(&mut images), ImageSlot::After, image("/x/after.heic", 5)).unwrap();
    assert_eq!((told.file_name.as_str(), told.bytes), ("after.heic", 5));
    let snapshot = get_selection_state(Some(&images)).unwrap();
    assert!(snapshot.before.is_none());
    assert_eq!(snapshot.after.unwrap().file_name, "after.heic");

    store_image(Some(&mut images), ImageSlot::Before, image("/x/before.png", 6)).unwrap();
    store_image(Some(&mut images), ImageSlot::Before, image("/x/other.png", 8)).unwrap();
    let snapshot = get_selection_state(Some(&images)).unwrap();
    assert_eq!(snapshot.before.unwrap().bytes, 8);
    assert_eq!(snapshot.after.unwrap().bytes, 5);

    assert_eq!(
        clear_images(true, Some(&mut images)).unwrap_err(),
        "Wait for the current video to finish before clearing images."
    );
    assert_eq!(images.before.as_ref().unwrap().bytes, 8);
    assert!(clear_images(false, Some(&mut images)).is_ok());
    assert!(images.before.is_none() && images.after.is_none());
}

#[test]
fn an_unreachable_selection_is_reported() {
    let message = "The image selection state is unavailable.";
    assert_eq!(get_selection_state(None).unwrap_err(), message);
    assert_eq!(clear_images(false, None).unwrap_err(), message);
    assert_eq!(
        store_image(None, ImageSlot::Before, image("/a.png", 1)).unwrap_err(),
        message
    );
    assert_eq!(
        clear_images(true, None).unwrap_err(),
        "Wait for the current video to finish before clearing images."
    );
}

#[test]
fn copies_of_a_selection_hold_the_same_images() {
    let mut images = SelectedImages::default();
    store_image(Some(&mut images), ImageSlot::Before, image("/x/before.png", 6)).unwrap();
    let copy = images.clone();
    clear_images(false, Some(&mut images)).unwrap();
    let before = copy.before.unwrap();
    assert_eq!(before.path.bytes, b"/x/before.png".to_vec());
    assert_eq!(before.file_name, "before.png");
    assert!(copy.after.is_none());
}
