//! The two images of a transition: which files may be chosen, and what is chosen.
use crate::path;
use crate::path::FilePath;
use crate::text;
use vstd::prelude::*;

verus! {

/// The largest image that may be chosen, in bytes.
pub const MAX_IMAGE_BYTES: u64 = 100 * 1024 * 1024;

/// Which of the two images is meant.
#[derive(Clone, Copy, Debug, PartialEq, Eq, Structural)]
pub enum ImageSlot {
    Before,
    After,
}

/// An image that was examined and found fit.
#[derive(Debug)]
pub struct SelectedImage {
    pub path: FilePath,
    pub file_name: String,
    pub bytes: u64,
}

/// The model of a `SelectedImage`.
#[verifier::ext_equal]
pub struct SelectedImageView {
    pub path: Seq<u8>,
    pub file_name: Seq<char>,
    pub bytes: u64,
}

impl View for SelectedImage {
    type V = SelectedImageView;

    open spec fn view(&self) -> SelectedImageView {
        SelectedImageView { path: self.path@, file_name: self.file_name@, bytes: self.bytes }
    }
}

impl Clone for SelectedImage {
    fn clone(&self) -> (copy: Self)
        ensures
            copy@ == self@,
    {
        SelectedImage {
            path: self.path.clone(),
            file_name: self.file_name.clone(),
            bytes: self.bytes,
        }
    }
}

/// The images chosen so far.
#[derive(Debug)]
pub struct SelectedImages {
    pub before: Option<SelectedImage>,
    pub after: Option<SelectedImage>,
}

/// The model of `SelectedImages`.
#[verifier::ext_equal]
pub struct SelectedImagesView {
    pub before: Option<SelectedImageView>,
    pub after: Option<SelectedImageView>,
}

impl View for SelectedImages {
    type V = SelectedImagesView;

    open spec fn view(&self) -> SelectedImagesView {
        SelectedImagesView {
            before: text::option_view(self.before),
            after: text::option_view(self.after),
        }
    }
}

/// No image chosen.
pub open spec fn no_images() -> SelectedImagesView {
    SelectedImagesView { before: None, after: None }
}

impl Default for SelectedImages {
    fn default() -> (images: Self)
        ensures
            images@ == no_images(),
    {
        SelectedImages { before: None, after: None }
    }
}

impl Clone for SelectedImages {
    fn clone(&self) -> (copy: Self)
        ensures
            copy@ == self@,
    {
        let before = match &self.before {
            Some(image) => Some(image.clone()),
            None => None,
        };
        let after = match &self.after {
            Some(image) => Some(image.clone()),
            None => None,
        };
        SelectedImages { before, after }
    }
}

/// What the interface is told of a chosen image: its name and its size, not where it is.
#[derive(Debug)]
pub struct ImageSelection {
    pub file_name: String,
    pub bytes: u64,
}

/// The model of an `ImageSelection`.
#[verifier::ext_equal]
pub struct ImageSelectionView {
    pub file_name: Seq<char>,
    pub bytes: u64,
}

impl View for ImageSelection {
    type V = ImageSelectionView;

    open spec fn view(&self) -> ImageSelectionView {
        ImageSelectionView { file_name: self.file_name@, bytes: self.bytes }
    }
}

/// What the interface is told of `image`.
pub open spec fn selection_of(image: SelectedImageView) -> ImageSelectionView {
    ImageSelectionView { file_name: image.file_name, bytes: image.bytes }
}

impl<'a> From<&'a SelectedImage> for ImageSelection {
    fn from(value: &'a SelectedImage) -> (selection: Self) {
        ImageSelection { file_name: value.file_name.clone(), bytes: value.bytes }
    }
}

impl<'a> vstd::std_specs::convert::FromSpecImpl<&'a SelectedImage> for ImageSelection {
    open spec fn obeys_from_spec() -> bool {
        true
    }

    open spec fn from_spec(value: &'a SelectedImage) -> Self {
        ImageSelection { file_name: value.file_name, bytes: value.bytes }
    }
}

/// What the interface is told of both images.
#[derive(Debug)]
pub struct SelectionSnapshot {
    pub before: Option<ImageSelection>,
    pub after: Option<ImageSelection>,
}

/// The model of a `SelectionSnapshot`.
#[verifier::ext_equal]
pub struct SelectionSnapshotView {
    pub before: Option<ImageSelectionView>,
    pub after: Option<ImageSelectionView>,
}

impl View for SelectionSnapshot {
    type V = SelectionSnapshotView;

    open spec fn view(&self) -> SelectionSnapshotView {
        SelectionSnapshotView {
            before: text::option_view(self.before),
            after: text::option_view(self.after),
        }
    }
}

/// What the interface is told of `images`.
pub open spec fn snapshot_of(images: SelectedImagesView) -> SelectionSnapshotView {
    SelectionSnapshotView {
        before: match images.before {
            Some(image) => Some(selection_of(image)),
            None => None,
        },
        after: match images.after {
            Some(image) => Some(selection_of(image)),
            None => None,
        },
    }
}

/// The extensions that an image may have.
pub open spec fn image_extensions() -> Seq<Seq<char>> {
    seq!["png"@, "jpg"@, "jpeg"@, "heic"@, "heif"@, "tif"@, "tiff"@]
}

/// Whether `path` ends in the extension of an image, whatever the case of its letters.
pub open spec fn is_image_path(path: Seq<u8>) -> bool {
    match path::extension(path) {
        Some(ending) => exists|i: int|
            0 <= i < image_extensions().len() && text::spells(
                ending,
                #[trigger] image_extensions()[i],
            ),
        None => false,
    }
}

/// The extensions that an image may have, in lower case.
pub fn image_extension_words() -> (words: [&'static str; 7])
    ensures
        words@.len() == image_extensions().len(),
        forall|i: int|
            0 <= i < words@.len() ==> (#[trigger] words@[i])@ == image_extensions()[i]
                && words@[i].is_ascii(),
{
    proof {
        reveal_strlit("png");
        reveal_strlit("jpg");
        reveal_strlit("jpeg");
        reveal_strlit("heic");
        reveal_strlit("heif");
        reveal_strlit("tif");
        reveal_strlit("tiff");
    }
    ["png", "jpg", "jpeg", "heic", "heif", "tif", "tiff"]
}

/// Whether `path` ends in the extension of an image, whatever the case of its letters.
pub fn has_supported_image_extension(path: &FilePath) -> (answer: bool)
    ensures
        answer == is_image_path(path@),
{
    match path.extension() {
        Some(ending) => {
            let words = image_extension_words();
            let mut i: usize = 0;
            while i < 7
                invariant
                    i <= 7,
                    words@.len() == image_extensions().len() == 7,
                    path::extension(path@) == Some(ending@),
                    forall|k: int|
                        0 <= k < words@.len() ==> (#[trigger] words@[k])@ == image_extensions()[k]
                            && words@[k].is_ascii(),
                    forall|k: int|
                        0 <= k < i ==> !text::spells(ending@, #[trigger] image_extensions()[k]),
                decreases 7 - i,
            {
                if text::is_spelling(ending.as_slice(), words[i]) {
                    assert(text::spells(ending@, image_extensions()[i as int]));
                    return true;
                }
                i += 1;
            }
            false
        },
        None => false,
    }
}

/// What the file system said of the path of an image.
#[derive(Debug)]
pub enum ImageProbe {
    /// The path leads nowhere.
    Unavailable,
    /// What the path leads to could not be inspected.
    Uninspectable,
    /// The path without links, whether a regular file is there, and the size of it.
    Found { path: FilePath, is_file: bool, bytes: u64 },
}

/// The model of an `ImageProbe`.
#[verifier::ext_equal]
pub enum ImageProbeView {
    Unavailable,
    Uninspectable,
    Found { path: Seq<u8>, is_file: bool, bytes: u64 },
}

impl View for ImageProbe {
    type V = ImageProbeView;

    open spec fn view(&self) -> ImageProbeView {
        match self {
            ImageProbe::Unavailable => ImageProbeView::Unavailable,
            ImageProbe::Uninspectable => ImageProbeView::Uninspectable,
            ImageProbe::Found { path, is_file, bytes } => ImageProbeView::Found {
                path: path@,
                is_file: *is_file,
                bytes: *bytes,
            },
        }
    }
}

/// The file name at the end of `path` as text, where it is UTF-8.
pub open spec fn file_name_text(path: Seq<u8>) -> Option<Seq<char>> {
    match path::file_name(path) {
        Some(name) => text::utf8_text(name),
        None => None,
    }
}

/// The file name at the end of `path` as text, where it is UTF-8.
pub fn read_file_name(path: &FilePath) -> (name: Option<String>)
    ensures
        text::option_view(name) == file_name_text(path@),
{
    match path.file_name() {
        Some(name) => match text::read_utf8(name.as_slice()) {
            Some(name_text) => Some(name_text.to_owned()),
            None => None,
        },
        None => None,
    }
}

/// The image that a probe shows, or the reason why it cannot be one of a transition.
pub open spec fn image_verdict(probe: ImageProbeView) -> Result<SelectedImageView, Seq<char>> {
    match probe {
        ImageProbeView::Unavailable => Err("The selected image is no longer available."@),
        ImageProbeView::Uninspectable => Err("The selected image could not be inspected."@),
        ImageProbeView::Found { path, is_file, bytes } => if !is_file {
            Err("Choose an image file, not a folder."@)
        } else if bytes == 0 {
            Err("The selected image is empty."@)
        } else if bytes > MAX_IMAGE_BYTES {
            Err("Each image must be 100 MB or smaller."@)
        } else if !is_image_path(path) {
            Err("Choose a PNG, JPEG, HEIC, HEIF, TIFF, or TIF image."@)
        } else {
            match file_name_text(path) {
                Some(file_name) => if file_name.len() > 0 {
                    Ok(SelectedImageView { path, file_name, bytes })
                } else {
                    Err("The selected image needs a valid file name."@)
                },
                None => Err("The selected image needs a valid file name."@),
            }
        },
    }
}

/// Decides from what the file system said whether an image may be used.
pub fn validate_image(probe: ImageProbe) -> (verdict: Result<SelectedImage, String>)
    ensures
        text::reply_view(verdict) == image_verdict(probe@),
        (verdict, probe) matches (Ok(image), ImageProbe::Found { path, bytes, .. }) ==> image.path@
            == path@ && image.bytes == bytes,
{
    match probe {
        ImageProbe::Unavailable => Err("The selected image is no longer available.".to_owned()),
        ImageProbe::Uninspectable => Err("The selected image could not be inspected.".to_owned()),
        ImageProbe::Found { path, is_file, bytes } => {
            if !is_file {
                return Err("Choose an image file, not a folder.".to_owned());
            }
            if bytes == 0 {
                return Err("The selected image is empty.".to_owned());
            }
            if bytes > MAX_IMAGE_BYTES {
                return Err("Each image must be 100 MB or smaller.".to_owned());
            }
            if !has_supported_image_extension(&path) {
                return Err("Choose a PNG, JPEG, HEIC, HEIF, TIFF, or TIF image.".to_owned());
            }
            match read_file_name(&path) {
                Some(file_name) => if file_name.as_str().is_empty() {
                    Err("The selected image needs a valid file name.".to_owned())
                } else {
                    Ok(SelectedImage { path, file_name, bytes })
                },
                None => Err("The selected image needs a valid file name.".to_owned()),
            }
        },
    }
}

/// `images` with `image` in `slot`.
pub open spec fn with_image(
    images: SelectedImagesView,
    slot: ImageSlot,
    image: SelectedImageView,
) -> SelectedImagesView {
    match slot {
        ImageSlot::Before => SelectedImagesView { before: Some(image), ..images },
        ImageSlot::After => SelectedImagesView { after: Some(image), ..images },
    }
}

/// The image in `slot`.
pub open spec fn image_in(images: SelectedImagesView, slot: ImageSlot) -> Option<
    SelectedImageView,
> {
    match slot {
        ImageSlot::Before => images.before,
        ImageSlot::After => images.after,
    }
}

/// What the interface is told of the image in `slot`.
pub open spec fn told_of(snapshot: SelectionSnapshotView, slot: ImageSlot) -> Option<
    ImageSelectionView,
> {
    match slot {
        ImageSlot::Before => snapshot.before,
        ImageSlot::After => snapshot.after,
    }
}

/// The answer where the chosen images cannot be reached.
pub open spec fn selection_unavailable() -> Seq<char> {
    "The image selection state is unavailable."@
}

/// Puts `image` in `slot` and says what the interface is told of it. Without access to the chosen
/// images nothing is stored.
pub fn store_image(
    images: Option<&mut SelectedImages>,
    slot: ImageSlot,
    image: SelectedImage,
) -> (reply: Result<ImageSelection, String>)
    ensures
        text::reply_view(reply) == if images is Some {
            Ok::<ImageSelectionView, Seq<char>>(selection_of(image@))
        } else {
            Err(selection_unavailable())
        },
        images matches Some(chosen) ==> final(chosen)@ == with_image(chosen@, slot, image@),
        reply matches Ok(told) ==> told.bytes == image.bytes && told.file_name@ == image.file_name@,
{
    match images {
        Some(chosen) => {
            let selection = ImageSelection::from(&image);
            match slot {
                ImageSlot::Before => {
                    chosen.before = Some(image);
                },
                ImageSlot::After => {
                    chosen.after = Some(image);
                },
            }
            Ok(selection)
        },
        None => Err("The image selection state is unavailable.".to_owned()),
    }
}

/// Whether `told` has the name and the size of `image`, or there is neither.
pub open spec fn is_told(image: Option<SelectedImage>, told: Option<ImageSelection>) -> bool {
    match (image, told) {
        (Some(image), Some(told)) => told.file_name@ == image.file_name@ && told.bytes
            == image.bytes,
        (None, None) => true,
        _ => false,
    }
}

fn tell(image: &Option<SelectedImage>) -> (selection: Option<ImageSelection>)
    ensures
        is_told(*image, selection),
        text::option_view(selection) == match text::option_view(*image) {
            Some(image) => Some(selection_of(image)),
            None => None,
        },
{
    match image {
        Some(image) => Some(ImageSelection::from(image)),
        None => None,
    }
}

/// Says what the interface is told of both images.
pub fn get_selection_state(images: Option<&SelectedImages>) -> (reply: Result<
    SelectionSnapshot,
    String,
>)
    ensures
        text::reply_view(reply) == match images {
            Some(chosen) => Ok::<SelectionSnapshotView, Seq<char>>(snapshot_of(chosen@)),
            None => Err(selection_unavailable()),
        },
        (reply, images) matches (Ok(snapshot), Some(chosen)) ==> is_told(
            chosen.before,
            snapshot.before,
        ) && is_told(chosen.after, snapshot.after),
{
    match images {
        Some(chosen) => Ok(
            SelectionSnapshot { before: tell(&chosen.before), after: tell(&chosen.after) },
        ),
        None => Err("The image selection state is unavailable.".to_owned()),
    }
}

/// Forgets both images, unless a video is being rendered from them.
pub fn clear_images(rendering: bool, images: Option<&mut SelectedImages>) -> (reply: Result<
    (),
    String,
>)
    ensures
        match reply {
            Ok(_) => !rendering && images is Some,
            Err(message) => if rendering {
                message@ == "Wait for the current video to finish before clearing images."@
            } else {
                images is None && message@ == selection_unavailable()
            },
        },
        images matches Some(chosen) ==> final(chosen)@ == if rendering {
            chosen@
        } else {
            no_images()
        },
        images matches Some(chosen) ==> !rendering ==> final(chosen).before is None,
        images matches Some(chosen) ==> !rendering ==> final(chosen).after is None,
{
    if rendering {
        return Err("Wait for the current video to finish before clearing images.".to_owned());
    }
    match images {
        Some(chosen) => {
            *chosen = SelectedImages::default();
            Ok(())
        },
        None => Err("The image selection state is unavailable.".to_owned()),
    }
}

/// An image may be used exactly where it is a regular file of one byte to a hundred megabytes with
/// the extension of an image and a name that is UTF-8.
pub proof fn image_accepted(probe: ImageProbeView)
    ensures
        image_verdict(probe) is Ok <==> (probe matches ImageProbeView::Found { path, is_file, bytes }
            && is_file && 0 < bytes <= 100 * 1024 * 1024 && is_image_path(path)
            && file_name_text(path) is Some),
        image_verdict(probe) matches Ok(image) ==> probe == (ImageProbeView::Found {
            path: image.path,
            is_file: true,
            bytes: image.bytes,
        }) && Some(image.file_name) == file_name_text(image.path),
{
    if let ImageProbeView::Found { path, is_file, bytes } = probe {
        if is_image_path(path) && file_name_text(path) is Some {
            path::file_name_is_file_name(path);
            let name = path::file_name(path)->0;
            vstd::utf8::decode_utf8_encode_utf8(name);
            if file_name_text(path)->0.len() == 0 {
                assert(vstd::utf8::encode_utf8(file_name_text(path)->0).len() == 0);
            }
        }
    }
}

/// The case of the letters of an extension does not matter: paths whose extensions differ in
/// nothing else are both paths of images or both not.
pub proof fn case_of_extension_does_not_matter(left: Seq<u8>, right: Seq<u8>)
    requires
        path::extension(left) matches Some(l) && path::extension(right) matches Some(r) && l.len()
            == r.len() && forall|i: int|
            0 <= i < l.len() ==> text::ascii_lower(#[trigger] l[i]) == text::ascii_lower(r[i]),
    ensures
        is_image_path(left) == is_image_path(right),
{
    let l = path::extension(left)->0;
    let r = path::extension(right)->0;
    assert forall|k: int| 0 <= k < image_extensions().len() implies text::spells(
        l,
        #[trigger] image_extensions()[k],
    ) == text::spells(r, image_extensions()[k]) by {
        let word = image_extensions()[k];
        if text::spells(l, word) {
            assert forall|i: int| 0 <= i < word.len() implies text::ascii_lower(
                #[trigger] r[i],
            ) as char == word[i] by {
                assert(text::ascii_lower(l[i]) as char == word[i]);
            }
        }
        if text::spells(r, word) {
            assert forall|i: int| 0 <= i < word.len() implies text::ascii_lower(
                #[trigger] l[i],
            ) as char == word[i] by {
                assert(text::ascii_lower(r[i]) as char == word[i]);
            }
        }
    }
}

/// What was stored in a slot is what the interface is told of that slot, and the other slot is
/// told as before.
pub proof fn stored_image_is_told(
    images: SelectedImagesView,
    slot: ImageSlot,
    other: ImageSlot,
    image: SelectedImageView,
)
    requires
        slot != other,
    ensures
        told_of(snapshot_of(with_image(images, slot, image)), slot) == Some(selection_of(image)),
        told_of(snapshot_of(with_image(images, slot, image)), other) == told_of(
            snapshot_of(images),
            other,
        ),
        image_in(with_image(images, slot, image), slot) == Some(image),
        image_in(with_image(images, slot, image), other) == image_in(images, other),
{
}

/// After both images were forgotten the interface is told of none.
pub proof fn cleared_images_are_not_told(slot: ImageSlot)
    ensures
        told_of(snapshot_of(no_images()), slot) is None,
{
}

/// Where an image is plays no part in what the interface is told: images that differ only in
/// their paths are told alike.
pub proof fn paths_are_not_told(images: SelectedImagesView, moved: SelectedImagesView)
    requires
        forall|slot: ImageSlot|
            match (#[trigger] image_in(images, slot), image_in(moved, slot)) {
                (Some(image), Some(other)) => image.file_name == other.file_name && image.bytes
                    == other.bytes,
                (None, None) => true,
                _ => false,
            },
    ensures
        snapshot_of(images) == snapshot_of(moved),
{
    assert(image_in(images, ImageSlot::Before) == images.before);
    assert(image_in(images, ImageSlot::After) == images.after);
}

/// An image that was found fit is the file that was found: it has its path, its size, and as its
/// name the text of the last name of the path.
pub proof fn image_is_what_was_found(path: Seq<u8>, is_file: bool, bytes: u64)
    ensures
        image_verdict(ImageProbeView::Found { path, is_file, bytes }) matches Ok(image)
            ==> image.path == path && image.bytes == bytes && path::file_name(path) == Some(
            vstd::utf8::encode_utf8(image.file_name),
        ),
{
    if path::file_name(path) is Some {
        text::text_encodes_to_its_bytes(path::file_name(path)->0);
    }
}

/// A file name is read as text exactly where there is one and it is UTF-8, and is the text that
/// its bytes encode.
pub proof fn file_name_is_read_as_text(path: Seq<u8>)
    ensures
        file_name_text(path) is Some <==> (path::file_name(path) matches Some(name)
            && vstd::utf8::valid_utf8(name)),
        file_name_text(path) matches Some(name) ==> path::file_name(path) == Some(
            vstd::utf8::encode_utf8(name),
        ),
{
    if path::file_name(path) is Some {
        text::text_encodes_to_its_bytes(path::file_name(path)->0);
    }
}

/// An image that cannot be used is refused for the first of the reasons that hold: it is gone, it
/// cannot be inspected, it is no regular file, it is empty, it is too large, it has not the
/// extension of an image, its name is not text.
pub proof fn image_refusals_say_why(path: Seq<u8>, is_file: bool, bytes: u64)
    ensures
        image_verdict(ImageProbeView::Unavailable) == Err::<SelectedImageView, Seq<char>>(
            "The selected image is no longer available."@,
        ),
        image_verdict(ImageProbeView::Uninspectable) == Err::<SelectedImageView, Seq<char>>(
            "The selected image could not be inspected."@,
        ),
        ({
            let verdict = image_verdict(ImageProbeView::Found { path, is_file, bytes });
            &&& !is_file ==> verdict == Err::<SelectedImageView, Seq<char>>(
                "Choose an image file, not a folder."@,
            )
            &&& is_file && bytes == 0 ==> verdict == Err::<SelectedImageView, Seq<char>>(
                "The selected image is empty."@,
            )
            &&& is_file && bytes > 104857600 ==> verdict == Err::<SelectedImageView, Seq<char>>(
                "Each image must be 100 MB or smaller."@,
            )
            &&& is_file && 0 < bytes <= 104857600 && !is_image_path(path) ==> verdict == Err::<
                SelectedImageView,
                Seq<char>,
            >("Choose a PNG, JPEG, HEIC, HEIF, TIFF, or TIF image."@)
            &&& is_file && 0 < bytes <= 104857600 && is_image_path(path) && !(path::file_name(
                path,
            ) matches Some(name) && vstd::utf8::valid_utf8(name)) ==> verdict == Err::<
                SelectedImageView,
                Seq<char>,
            >("The selected image needs a valid file name."@)
            &&& is_file && 0 < bytes <= 104857600 && is_image_path(path) && (path::file_name(
                path,
            ) matches Some(name) && vstd::utf8::valid_utf8(name)) ==> verdict is Ok
        }),
{
    image_accepted(ImageProbeView::Found { path, is_file, bytes });
}

/// An image has one of seven extensions, whatever the case of the letters.
pub proof fn image_has_one_of_seven_extensions(path: Seq<u8>)
    ensures
        is_image_path(path) <==> (path::extension(path) matches Some(ending) && (text::spells(
            ending,
            "png"@,
        ) || text::spells(ending, "jpg"@) || text::spells(ending, "jpeg"@) || text::spells(
            ending,
            "heic"@,
        ) || text::spells(ending, "heif"@) || text::spells(ending, "tif"@) || text::spells(
            ending,
            "tiff"@,
        ))),
        image_extensions().len() == 7,
{
    if let Some(ending) = path::extension(path) {
        let words = image_extensions();
        assert(text::spells(ending, words[0]) == text::spells(ending, "png"@));
        assert(text::spells(ending, words[1]) == text::spells(ending, "jpg"@));
        assert(text::spells(ending, words[2]) == text::spells(ending, "jpeg"@));
        assert(text::spells(ending, words[3]) == text::spells(ending, "heic"@));
        assert(text::spells(ending, words[4]) == text::spells(ending, "heif"@));
        assert(text::spells(ending, words[5]) == text::spells(ending, "tif"@));
        assert(text::spells(ending, words[6]) == text::spells(ending, "tiff"@));
    }
}

/// Whether a path is that of an image depends on nothing but the extension, and no video is one.
pub proof fn extension_alone_makes_an_image(left: Seq<u8>, right: Seq<u8>)
    ensures
        path::extension(left) == path::extension(right) ==> is_image_path(left) == is_image_path(
            right,
        ),
        path::extension(left) is None ==> !is_image_path(left),
        path::extension(left) matches Some(ending) && text::spells(ending, "mp4"@)
            ==> !is_image_path(left),
{
    reveal_strlit("mp4");
    reveal_strlit("png");
    reveal_strlit("jpg");
    reveal_strlit("jpeg");
    reveal_strlit("heic");
    reveal_strlit("heif");
    reveal_strlit("tif");
    reveal_strlit("tiff");
    image_has_one_of_seven_extensions(left);
    if let Some(ending) = path::extension(left) {
        if text::spells(ending, "mp4"@) {
            assert(text::ascii_lower(ending[0]) as char == 'm');
        }
        if is_image_path(left) {
            assert(text::ascii_lower(ending[0]) as char != 'm');
        }
    }
}

/// The interface is told of a stored image its name and its size, both unchanged, and of the other
/// slot what it was told before.
pub proof fn interface_is_told_name_and_size(
    images: SelectedImagesView,
    slot: ImageSlot,
    image: SelectedImageView,
)
    ensures
        selection_of(image).file_name == image.file_name,
        selection_of(image).bytes == image.bytes,
        ({
            let snapshot = snapshot_of(with_image(images, slot, image));
            let earlier = snapshot_of(images);
            match slot {
                ImageSlot::Before => {
                    &&& snapshot.before matches Some(told) && told.file_name == image.file_name
                        && told.bytes == image.bytes
                    &&& snapshot.after == earlier.after
                },
                ImageSlot::After => {
                    &&& snapshot.after matches Some(told) && told.file_name == image.file_name
                        && told.bytes == image.bytes
                    &&& snapshot.before == earlier.before
                },
            }
        }),
        told_of(snapshot_of(with_image(images, slot, image)), slot) matches Some(told)
            && told.file_name == image.file_name && told.bytes == image.bytes,
{
}

/// The interface is told of a slot exactly where an image is in it, and then the name and the size
/// of that image.
pub proof fn interface_is_told_what_is_chosen(images: SelectedImagesView)
    ensures
        match (images.before, snapshot_of(images).before) {
            (Some(image), Some(told)) => told.file_name == image.file_name && told.bytes
                == image.bytes,
            (None, None) => true,
            _ => false,
        },
        match (images.after, snapshot_of(images).after) {
            (Some(image), Some(told)) => told.file_name == image.file_name && told.bytes
                == image.bytes,
            (None, None) => true,
            _ => false,
        },
{
}

/// What is made of an image for the interface has its name and its size.
pub proof fn selection_has_name_and_size(image: SelectedImage)
    ensures
        <ImageSelection as vstd::std_specs::convert::FromSpec<&SelectedImage>>::obeys_from_spec(),
        <ImageSelection as vstd::std_specs::convert::FromSpec<&SelectedImage>>::from_spec(
            &image,
        ).file_name@ == image.file_name@,
        <ImageSelection as vstd::std_specs::convert::FromSpec<&SelectedImage>>::from_spec(
            &image,
        ).bytes == image.bytes,
{
}

/// An image is stored whole, in its slot alone.
pub proof fn image_is_stored_in_its_slot(
    images: SelectedImagesView,
    image: SelectedImageView,
)
    ensures
        with_image(images, ImageSlot::Before, image).before == Some(image),
        with_image(images, ImageSlot::Before, image).after == images.after,
        with_image(images, ImageSlot::After, image).after == Some(image),
        with_image(images, ImageSlot::After, image).before == images.before,
        image_in(images, ImageSlot::Before) == images.before,
        image_in(images, ImageSlot::After) == images.after,
        told_of(snapshot_of(images), ImageSlot::Before) == snapshot_of(images).before,
        told_of(snapshot_of(images), ImageSlot::After) == snapshot_of(images).after,
        no_images().before is None,
        no_images().after is None,
{
}

/// Images and what is told of them are seen field by field.
pub proof fn images_are_seen_by_field(
    image: SelectedImage,
    images: SelectedImages,
    told: ImageSelection,
    snapshot: SelectionSnapshot,
    path: FilePath,
    is_file: bool,
    bytes: u64,
)
    ensures
        image@.path == image.path@,
        image@.file_name == image.file_name@,
        image@.bytes == image.bytes,
        images@.before == text::option_view(images.before),
        images@.after == text::option_view(images.after),
        told@.file_name == told.file_name@,
        told@.bytes == told.bytes,
        snapshot@.before == text::option_view(snapshot.before),
        snapshot@.after == text::option_view(snapshot.after),
        ImageProbe::Unavailable@ == ImageProbeView::Unavailable,
        ImageProbe::Uninspectable@ == ImageProbeView::Uninspectable,
        (ImageProbe::Found { path, is_file, bytes })@ == (ImageProbeView::Found {
            path: path@,
            is_file,
            bytes,
        }),
{
}

} // verus!
