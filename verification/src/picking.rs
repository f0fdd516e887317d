//! The choice of an image, step by step.
//!
//! A job turns what happened outside into what is to be done next, until it ends.
use crate::dialog;
use crate::dialog::DialogPrompt;
use crate::path;
use crate::path::FilePath;
use crate::selection;
use crate::selection::{ImageProbe, ImageSlot, SelectedImage};
use vstd::prelude::*;

verus! {

/// How a dialog for a file ended.
#[derive(Debug)]
pub enum PickOutcome {
    /// The dialog could not be opened.
    Failed,
    /// Nothing was picked.
    Cancelled,
    /// What was picked is not a file of this machine.
    NotLocal,
    /// A path was picked.
    Local(FilePath),
}

/// The model of a `PickOutcome`.
#[verifier::ext_equal]
pub enum PickOutcomeView {
    Failed,
    Cancelled,
    NotLocal,
    Local(Seq<u8>),
}

impl View for PickOutcome {
    type V = PickOutcomeView;

    open spec fn view(&self) -> PickOutcomeView {
        match self {
            PickOutcome::Failed => PickOutcomeView::Failed,
            PickOutcome::Cancelled => PickOutcomeView::Cancelled,
            PickOutcome::NotLocal => PickOutcomeView::NotLocal,
            PickOutcome::Local(path) => PickOutcomeView::Local(path@),
        }
    }
}

/// How far the choice of an image has come.
#[derive(Clone, Copy, Debug, PartialEq, Eq, Structural)]
pub enum ChooseState {
    /// An image for the slot was asked for.
    Ready { slot: ImageSlot },
    /// The dialog is open.
    Picking { slot: ImageSlot },
    /// The file system is asked about the path that was picked.
    Examining { slot: ImageSlot },
    /// The job has ended.
    Finished,
}

/// What happened outside.
#[derive(Debug)]
pub enum ChooseEvent {
    /// The job begins; whether a video is being rendered.
    Begun { rendering: bool },
    /// The dialog was closed.
    Picked(PickOutcome),
    /// The file system was asked about the image.
    Examined(ImageProbe),
}

/// The model of a `ChooseEvent`.
#[verifier::ext_equal]
pub enum ChooseEventView {
    Begun { rendering: bool },
    Picked(PickOutcomeView),
    Examined(selection::ImageProbeView),
}

impl View for ChooseEvent {
    type V = ChooseEventView;

    open spec fn view(&self) -> ChooseEventView {
        match self {
            ChooseEvent::Begun { rendering } => ChooseEventView::Begun { rendering: *rendering },
            ChooseEvent::Picked(outcome) => ChooseEventView::Picked(outcome@),
            ChooseEvent::Examined(probe) => ChooseEventView::Examined(probe@),
        }
    }
}

/// What is to be done outside.
#[derive(Debug)]
pub enum ChooseAction {
    /// Open the dialog for an image.
    OpenPicker { prompt: DialogPrompt },
    /// Ask the file system about the path.
    ExamineImage { path: FilePath },
    /// Put the image in the slot and answer with what the interface is told of it.
    Store { slot: ImageSlot, image: SelectedImage },
    /// Answer that nothing was chosen.
    Cancel,
    /// Answer with the message.
    Refuse { message: String },
}

/// The model of a `ChooseAction`.
#[verifier::ext_equal]
pub enum ChooseActionView {
    OpenPicker { prompt: dialog::DialogPromptView },
    ExamineImage { path: Seq<u8> },
    Store { slot: ImageSlot, image: selection::SelectedImageView },
    Cancel,
    Refuse { message: Seq<char> },
}

impl View for ChooseAction {
    type V = ChooseActionView;

    open spec fn view(&self) -> ChooseActionView {
        match self {
            ChooseAction::OpenPicker { prompt } => ChooseActionView::OpenPicker { prompt: prompt@ },
            ChooseAction::ExamineImage { path } => ChooseActionView::ExamineImage { path: path@ },
            ChooseAction::Store { slot, image } => ChooseActionView::Store {
                slot: *slot,
                image: image@,
            },
            ChooseAction::Cancel => ChooseActionView::Cancel,
            ChooseAction::Refuse { message } => ChooseActionView::Refuse { message: message@ },
        }
    }
}

/// Whether `event` is what a job in `state` waits for.
pub open spec fn choose_awaits(state: ChooseState, event: ChooseEventView) -> bool {
    match (state, event) {
        (ChooseState::Ready { .. }, ChooseEventView::Begun { .. }) => true,
        (ChooseState::Picking { .. }, ChooseEventView::Picked(_)) => true,
        (ChooseState::Examining { .. }, ChooseEventView::Examined(_)) => true,
        _ => false,
    }
}

/// The next state of a job and what is to be done.
pub open spec fn choose_step(state: ChooseState, event: ChooseEventView) -> (
    ChooseState,
    ChooseActionView,
) {
    match (state, event) {
        (ChooseState::Ready { slot }, ChooseEventView::Begun { rendering: true }) => refusal(
            "Wait for the current video to finish before changing images."@,
        ),
        (ChooseState::Ready { slot }, ChooseEventView::Begun { rendering: false }) => (
            ChooseState::Picking { slot },
            ChooseActionView::OpenPicker { prompt: dialog::image_dialog(slot) },
        ),
        (ChooseState::Picking { slot }, ChooseEventView::Picked(outcome)) => match outcome {
            PickOutcomeView::Failed => refusal("The image picker could not be opened."@),
            PickOutcomeView::Cancelled => (ChooseState::Finished, ChooseActionView::Cancel),
            PickOutcomeView::NotLocal => refusal("The selected item is not a local image file."@),
            PickOutcomeView::Local(path) => (
                ChooseState::Examining { slot },
                ChooseActionView::ExamineImage { path },
            ),
        },
        (ChooseState::Examining { slot }, ChooseEventView::Examined(probe)) => {
            match selection::image_verdict(probe) {
                Ok(image) => (ChooseState::Finished, ChooseActionView::Store { slot, image }),
                Err(message) => refusal(message),
            }
        },
        _ => arbitrary(),
    }
}

/// The end of a job that is answered with `message`.
pub open spec fn refusal(message: Seq<char>) -> (ChooseState, ChooseActionView) {
    (ChooseState::Finished, ChooseActionView::Refuse { message })
}

/// A step of a job: its next state and what is to be done.
#[derive(Debug)]
pub struct ChooseStep {
    pub state: ChooseState,
    pub action: ChooseAction,
}

fn refuse(message: String) -> (step: ChooseStep)
    ensures
        (step.state, step.action@) == refusal(message@),
{
    ChooseStep { state: ChooseState::Finished, action: ChooseAction::Refuse { message } }
}

/// Whether a job in `state` waits for `event`.
pub fn choose_accepts(state: &ChooseState, event: &ChooseEvent) -> (answer: bool)
    ensures
        answer == choose_awaits(*state, event@),
{
    match (state, event) {
        (ChooseState::Ready { .. }, ChooseEvent::Begun { .. }) => true,
        (ChooseState::Picking { .. }, ChooseEvent::Picked(_)) => true,
        (ChooseState::Examining { .. }, ChooseEvent::Examined(_)) => true,
        _ => false,
    }
}

/// Takes the choice of an image one step on.
pub fn choose_image(state: ChooseState, event: ChooseEvent) -> (step: ChooseStep)
    requires
        choose_awaits(state, event@),
    ensures
        (step.state, step.action@) == choose_step(state, event@),
{
    match (state, event) {
        (ChooseState::Ready { slot }, ChooseEvent::Begun { rendering }) => if rendering {
            refuse("Wait for the current video to finish before changing images.".to_owned())
        } else {
            ChooseStep {
                state: ChooseState::Picking { slot },
                action: ChooseAction::OpenPicker { prompt: dialog::image_prompt(slot) },
            }
        },
        (ChooseState::Picking { slot }, ChooseEvent::Picked(outcome)) => match outcome {
            PickOutcome::Failed => refuse("The image picker could not be opened.".to_owned()),
            PickOutcome::Cancelled => ChooseStep {
                state: ChooseState::Finished,
                action: ChooseAction::Cancel,
            },
            PickOutcome::NotLocal => refuse(
                "The selected item is not a local image file.".to_owned(),
            ),
            PickOutcome::Local(path) => ChooseStep {
                state: ChooseState::Examining { slot },
                action: ChooseAction::ExamineImage { path },
            },
        },
        (ChooseState::Examining { slot }, ChooseEvent::Examined(probe)) => {
            match selection::validate_image(probe) {
                Ok(image) => ChooseStep {
                    state: ChooseState::Finished,
                    action: ChooseAction::Store { slot, image },
                },
                Err(message) => refuse(message),
            }
        },
        _ => vstd::pervasive::unreached(),
    }
}

/// While a video is being rendered no image can be chosen: the job ends at once, with a message,
/// before a dialog is opened.
pub proof fn choice_waits_for_rendering(slot: ImageSlot)
    ensures
        choose_step(ChooseState::Ready { slot }, ChooseEventView::Begun { rendering: true }) == (
            ChooseState::Finished,
            ChooseActionView::Refuse {
                message: "Wait for the current video to finish before changing images."@,
            },
        ),
{
}

/// Only an image that was examined and found fit is stored, and in the slot that was asked for.
pub proof fn stored_image_is_fit(state: ChooseState, event: ChooseEventView)
    requires
        choose_awaits(state, event),
    ensures
        choose_step(state, event).1 matches ChooseActionView::Store { slot, image } ==> state == (
        ChooseState::Examining { slot }) && (event matches ChooseEventView::Examined(probe)
            && selection::image_verdict(probe) == Ok::<_, Seq<char>>(image)),
{
}

/// A job keeps the slot that it is for, and moves on towards its end with every step.
pub proof fn choice_moves_on(state: ChooseState, event: ChooseEventView)
    requires
        choose_awaits(state, event),
    ensures
        choose_stage(state) < choose_stage(choose_step(state, event).0) <= 3,
        choose_slot(choose_step(state, event).0) is Some ==> choose_slot(
            choose_step(state, event).0,
        ) == choose_slot(state),
{
}

/// How many steps a job has taken at most.
pub open spec fn choose_stage(state: ChooseState) -> int {
    match state {
        ChooseState::Ready { .. } => 0,
        ChooseState::Picking { .. } => 1,
        ChooseState::Examining { .. } => 2,
        ChooseState::Finished => 3,
    }
}

/// The slot that a job is for, until it ends.
pub open spec fn choose_slot(state: ChooseState) -> Option<ImageSlot> {
    match state {
        ChooseState::Ready { slot } => Some(slot),
        ChooseState::Picking { slot } => Some(slot),
        ChooseState::Examining { slot } => Some(slot),
        ChooseState::Finished => None,
    }
}

/// A fit image that was picked is stored in the slot that was asked for, and is what the interface
/// is told of that slot from then on.
pub proof fn chosen_image_is_told(
    images: selection::SelectedImagesView,
    slot: ImageSlot,
    path: Seq<u8>,
    probe: selection::ImageProbeView,
)
    requires
        selection::image_verdict(probe) is Ok,
    ensures
        ({
            let image = selection::image_verdict(probe)->Ok_0;
            let opened = choose_step(
                ChooseState::Ready { slot },
                ChooseEventView::Begun { rendering: false },
            );
            let picked = choose_step(
                opened.0,
                ChooseEventView::Picked(PickOutcomeView::Local(path)),
            );
            let examined = choose_step(picked.0, ChooseEventView::Examined(probe));
            &&& opened.1 == ChooseActionView::OpenPicker { prompt: dialog::image_dialog(slot) }
            &&& picked.1 == ChooseActionView::ExamineImage { path }
            &&& examined == (ChooseState::Finished, ChooseActionView::Store { slot, image })
            &&& selection::told_of(
                selection::snapshot_of(selection::with_image(images, slot, image)),
                slot,
            ) == Some(selection::selection_of(image))
        }),
{
}

/// An image can be used exactly where a regular file of one byte to a hundred megabytes was found,
/// with the extension of an image and a name that is UTF-8.
proof fn lemma_fit(probe: selection::ImageProbeView)
    ensures
        selection::image_verdict(probe) is Ok <==> (probe matches selection::ImageProbeView::Found {
            path,
            is_file,
            bytes,
        } && is_file && 0 < bytes <= 104857600 && selection::is_image_path(path)
            && selection::file_name_text(path) is Some),
{
    selection::image_accepted(probe);
}

/// A dialog that is cancelled ends the choice without a message, for either slot, and nothing else
/// ends it so.
pub proof fn cancelled_dialog_chooses_nothing(state: ChooseState, event: ChooseEventView)
    requires
        choose_awaits(state, event),
    ensures
        choose_step(state, event).1 is Cancel <==> event == ChooseEventView::Picked(
            PickOutcomeView::Cancelled,
        ),
        choose_step(state, event).1 is Cancel ==> choose_step(state, event).0 is Finished,
{
}

/// A choice is refused only where a video is being rendered, the dialog failed, what was picked is
/// not local, or the image is unfit.
pub proof fn choice_is_refused_only_for_cause(state: ChooseState, event: ChooseEventView)
    requires
        choose_awaits(state, event),
    ensures
        choose_step(state, event).1 is Refuse <==> ({
            ||| event == (ChooseEventView::Begun { rendering: true })
            ||| event == ChooseEventView::Picked(PickOutcomeView::Failed)
            ||| event == ChooseEventView::Picked(PickOutcomeView::NotLocal)
            ||| event matches ChooseEventView::Examined(probe) && !(
            probe matches selection::ImageProbeView::Found { path, is_file, bytes } && is_file && 0
                < bytes <= 104857600 && selection::is_image_path(path)
                && selection::file_name_text(path) is Some)
        }),
        choose_step(state, event).1 is Refuse ==> choose_step(state, event).0 is Finished,
{
    if let ChooseEventView::Examined(probe) = event {
        lemma_fit(probe);
    }
}

/// A refused choice is answered with the reason.
pub proof fn refused_choice_says_why(slot: ImageSlot, probe: selection::ImageProbeView)
    ensures
        choose_step(ChooseState::Ready { slot }, ChooseEventView::Begun { rendering: true }).1 == (
        ChooseActionView::Refuse {
            message: "Wait for the current video to finish before changing images."@,
        }),
        choose_step(
            ChooseState::Picking { slot },
            ChooseEventView::Picked(PickOutcomeView::Failed),
        ).1 == (ChooseActionView::Refuse { message: "The image picker could not be opened."@ }),
        choose_step(
            ChooseState::Picking { slot },
            ChooseEventView::Picked(PickOutcomeView::NotLocal),
        ).1 == (ChooseActionView::Refuse {
            message: "The selected item is not a local image file."@,
        }),
        selection::image_verdict(probe) matches Err(message) ==> choose_step(
            ChooseState::Examining { slot },
            ChooseEventView::Examined(probe),
        ).1 == (ChooseActionView::Refuse { message }),
{
}

/// Where no video is being rendered the dialog for the slot is opened; the path that was picked is
/// examined, as it was picked; and a fit image is stored in the slot, with the path and the size
/// that were found. The job keeps its slot all the while.
pub proof fn choice_goes_from_dialog_to_slot(
    slot: ImageSlot,
    path: Seq<u8>,
    found: Seq<u8>,
    bytes: u64,
)
    ensures
        ({
            let opened = choose_step(
                ChooseState::Ready { slot },
                ChooseEventView::Begun { rendering: false },
            );
            &&& opened.0 == (ChooseState::Picking { slot })
            &&& opened.1 matches ChooseActionView::OpenPicker { prompt } && prompt.title == (
            if slot == ImageSlot::Before {
                "Choose the before image"@
            } else {
                "Choose the after image"@
            }) && prompt.file_name is None && prompt.filter == "Images"@ && prompt.extensions
                == selection::image_extensions()
        }),
        choose_step(
            ChooseState::Picking { slot },
            ChooseEventView::Picked(PickOutcomeView::Local(path)),
        ) == (ChooseState::Examining { slot }, ChooseActionView::ExamineImage { path }),
        0 < bytes <= 104857600 && selection::is_image_path(found) && selection::file_name_text(
            found,
        ) is Some ==> ({
            let stored = choose_step(
                ChooseState::Examining { slot },
                ChooseEventView::Examined(
                    selection::ImageProbeView::Found { path: found, is_file: true, bytes },
                ),
            );
            &&& stored.0 is Finished
            &&& stored.1 matches ChooseActionView::Store { slot: into, image } && into == slot
                && image.path == found && image.bytes == bytes && path::file_name(found) == Some(
                vstd::utf8::encode_utf8(image.file_name),
            )
        }),
{
    let probe = selection::ImageProbeView::Found { path: found, is_file: true, bytes };
    lemma_fit(probe);
    selection::image_is_what_was_found(found, true, bytes);
}

/// A job waits for its beginning, for the end of the dialog, for the examination, in this order,
/// and for nothing once it has ended.
pub proof fn choice_waits_in_order(state: ChooseState, event: ChooseEventView)
    ensures
        choose_awaits(state, event) <==> (state is Ready && event is Begun) || (state is Picking
            && event is Picked) || (state is Examining && event is Examined),
{
}

/// What the interface is told once a choice has gone through: the name and the size of the file
/// that was found.
pub proof fn chosen_file_is_told(
    images: selection::SelectedImagesView,
    slot: ImageSlot,
    found: Seq<u8>,
    bytes: u64,
)
    requires
        0 < bytes <= 104857600,
        selection::is_image_path(found),
        selection::file_name_text(found) is Some,
    ensures
        choose_step(
            ChooseState::Examining { slot },
            ChooseEventView::Examined(
                selection::ImageProbeView::Found { path: found, is_file: true, bytes },
            ),
        ).1 matches ChooseActionView::Store { slot: into, image } && selection::told_of(
            selection::snapshot_of(selection::with_image(images, into, image)),
            slot,
        ) matches Some(told) && told.bytes == bytes && path::file_name(found) == Some(
            vstd::utf8::encode_utf8(told.file_name),
        ),
{
    choice_goes_from_dialog_to_slot(slot, found, found, bytes);
}

/// Events, outcomes and actions are seen for what they are.
pub proof fn choices_are_seen_by_field(
    path: FilePath,
    rendering: bool,
    outcome: PickOutcome,
    probe: ImageProbe,
    prompt: DialogPrompt,
    slot: ImageSlot,
    image: SelectedImage,
    message: String,
)
    ensures
        PickOutcome::Failed@ == PickOutcomeView::Failed,
        PickOutcome::Cancelled@ == PickOutcomeView::Cancelled,
        PickOutcome::NotLocal@ == PickOutcomeView::NotLocal,
        PickOutcome::Local(path)@ == PickOutcomeView::Local(path@),
        (ChooseEvent::Begun { rendering })@ == (ChooseEventView::Begun { rendering }),
        ChooseEvent::Picked(outcome)@ == ChooseEventView::Picked(outcome@),
        ChooseEvent::Examined(probe)@ == ChooseEventView::Examined(probe@),
        (ChooseAction::OpenPicker { prompt })@ == (ChooseActionView::OpenPicker {
            prompt: prompt@,
        }),
        (ChooseAction::ExamineImage { path })@ == (ChooseActionView::ExamineImage { path: path@ }),
        (ChooseAction::Store { slot, image })@ == (ChooseActionView::Store {
            slot,
            image: image@,
        }),
        ChooseAction::Cancel@ == ChooseActionView::Cancel,
        (ChooseAction::Refuse { message })@ == (ChooseActionView::Refuse { message: message@ }),
{
}

} // verus!
