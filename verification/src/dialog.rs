//! What the dialogs for files show.
use crate::path;
use crate::renderer;
use crate::selection;
use crate::selection::ImageSlot;
use crate::text;
use vstd::prelude::*;

verus! {

/// What a dialog for a file shows: its title, the file name that it proposes, if any, and the one
/// kind of files that it offers, with the extensions of these.
#[derive(Debug)]
pub struct DialogPrompt {
    pub title: &'static str,
    pub file_name: Option<&'static str>,
    pub filter: &'static str,
    pub extensions: Vec<&'static str>,
}

/// The model of a `DialogPrompt`.
#[verifier::ext_equal]
pub struct DialogPromptView {
    pub title: Seq<char>,
    pub file_name: Option<Seq<char>>,
    pub filter: Seq<char>,
    pub extensions: Seq<Seq<char>>,
}

impl View for DialogPrompt {
    type V = DialogPromptView;

    open spec fn view(&self) -> DialogPromptView {
        DialogPromptView {
            title: self.title@,
            file_name: match self.file_name {
                Some(name) => Some(name@),
                None => None,
            },
            filter: self.filter@,
            extensions: Seq::new(self.extensions@.len(), |i: int| self.extensions@[i]@),
        }
    }
}

/// The title of the dialog for the image of `slot`.
pub open spec fn image_title(slot: ImageSlot) -> Seq<char> {
    match slot {
        ImageSlot::Before => "Choose the before image"@,
        ImageSlot::After => "Choose the after image"@,
    }
}

/// What the dialog for the image of `slot` shows.
pub open spec fn image_dialog(slot: ImageSlot) -> DialogPromptView {
    DialogPromptView {
        title: image_title(slot),
        file_name: None,
        filter: "Images"@,
        extensions: selection::image_extensions(),
    }
}

/// What the dialog for the path of a video shows.
pub open spec fn video_dialog() -> DialogPromptView {
    DialogPromptView {
        title: "Save ripple video"@,
        file_name: Some(renderer::default_file_name()),
        filter: "MPEG-4 video"@,
        extensions: seq!["mp4"@],
    }
}

/// Says what the dialog for the image of `slot` shows.
pub fn image_prompt(slot: ImageSlot) -> (prompt: DialogPrompt)
    ensures
        prompt@ == image_dialog(slot),
{
    let words = selection::image_extension_words();
    let mut extensions: Vec<&'static str> = Vec::new();
    let mut i: usize = 0;
    while i < 7
        invariant
            i <= 7,
            words@.len() == selection::image_extensions().len() == 7,
            forall|k: int|
                0 <= k < words@.len() ==> (#[trigger] words@[k])@
                    == selection::image_extensions()[k],
            extensions@.len() == i,
            forall|k: int|
                0 <= k < i ==> (#[trigger] extensions@[k])@ == selection::image_extensions()[k],
        decreases 7 - i,
    {
        extensions.push(words[i]);
        i += 1;
    }
    let title = match slot {
        ImageSlot::Before => "Choose the before image",
        ImageSlot::After => "Choose the after image",
    };
    let prompt = DialogPrompt { title, file_name: None, filter: "Images", extensions };
    assert(prompt@.extensions =~= selection::image_extensions());
    prompt
}

/// Says what the dialog for the path of a video shows.
pub fn video_prompt() -> (prompt: DialogPrompt)
    ensures
        prompt@ == video_dialog(),
{
    let mut extensions: Vec<&'static str> = Vec::new();
    extensions.push("mp4");
    let prompt = DialogPrompt {
        title: "Save ripple video",
        file_name: Some(renderer::default_video_name()),
        filter: "MPEG-4 video",
        extensions,
    };
    assert(prompt@.extensions =~= seq!["mp4"@]);
    prompt
}

/// The dialog for an image says which of the two images it is for, proposes no name, and offers
/// exactly the files that have one of the seven extensions of an image.
pub proof fn image_dialog_offers_images()
    ensures
        image_dialog(ImageSlot::Before).title == "Choose the before image"@,
        image_dialog(ImageSlot::After).title == "Choose the after image"@,
        forall|slot: ImageSlot|
            {
                &&& (#[trigger] image_dialog(slot)).file_name is None
                &&& image_dialog(slot).filter == "Images"@
                &&& image_dialog(slot).extensions == seq![
                    "png"@,
                    "jpg"@,
                    "jpeg"@,
                    "heic"@,
                    "heif"@,
                    "tif"@,
                    "tiff"@,
                ]
            },
{
}

/// What the dialog for an image offers is what is accepted as an image: a path is that of an image
/// exactly where its extension spells one of those that are offered.
pub proof fn offered_images_are_accepted(slot: ImageSlot, path: Seq<u8>)
    ensures
        selection::is_image_path(path) <==> (path::extension(path) matches Some(ending)
            && exists|i: int|
            0 <= i < image_dialog(slot).extensions.len() && text::spells(
                ending,
                #[trigger] image_dialog(slot).extensions[i],
            )),
{
    assert(image_dialog(slot).extensions == selection::image_extensions());
}

/// The dialog for a video proposes the name of an MP4 and offers nothing but MP4 files.
pub proof fn video_dialog_offers_videos()
    ensures
        video_dialog().title == "Save ripple video"@,
        video_dialog().file_name == Some("ripple-transition.mp4"@),
        video_dialog().filter == "MPEG-4 video"@,
        video_dialog().extensions == seq!["mp4"@],
{
}

/// What a dialog shows is seen field by field.
pub proof fn prompt_is_seen_by_field(prompt: DialogPrompt)
    ensures
        prompt@.title == prompt.title@,
        prompt.file_name matches Some(name) ==> prompt@.file_name == Some(name@),
        prompt.file_name is None ==> prompt@.file_name is None,
        prompt@.filter == prompt.filter@,
        prompt@.extensions.len() == prompt.extensions@.len(),
        forall|i: int|
            0 <= i < prompt.extensions@.len() ==> #[trigger] prompt@.extensions[i]
                == prompt.extensions@[i]@,
{
}

} // verus!
