//! The rendering of a video, step by step.
//!
//! A job turns what happened outside into what is to be done next, until it ends. From the moment
//! at which it acquires the flag that one video is being rendered, until its end, no other job
//! can acquire it.
use crate::dialog;
use crate::dialog::DialogPrompt;
use crate::origin;
use crate::origin::RenderOrigin;
use crate::output;
use crate::output::{Occupant, OutputPlan};
use crate::path;
use crate::path::FilePath;
use crate::picking;
use crate::picking::PickOutcome;
use crate::renderer;
use crate::renderer::{RenderResult, RendererRun};
use crate::report;
use crate::selection;
use crate::selection::{ImageProbe, SelectedImages};
use crate::text;
use vstd::prelude::*;
use vstd::utf8::*;

verus! {

/// How far the rendering of a video has come.
#[derive(Debug)]
pub enum RenderState {
    /// Nothing was asked for yet.
    Ready,
    /// The flag is being acquired.
    Acquiring { origin: RenderOrigin },
    /// The chosen images are being read.
    Collecting { origin: RenderOrigin },
    /// The file system is asked about the image before.
    CheckingBefore { origin: RenderOrigin, after: FilePath },
    /// The file system is asked about the image after.
    CheckingAfter { origin: RenderOrigin, before: FilePath },
    /// The dialog for the path of the video is open.
    Saving { origin: RenderOrigin, before: FilePath, after: FilePath },
    /// The file system is asked about the folder of the video.
    Placing { origin: RenderOrigin, before: FilePath, after: FilePath, plan: OutputPlan },
    /// The file system is asked about what stands at the path of the video.
    Probing { origin: RenderOrigin, before: FilePath, after: FilePath, output: FilePath },
    /// The renderer runs.
    Running { origin: RenderOrigin, before: FilePath, after: FilePath, output: FilePath },
    /// The job has ended.
    Finished,
}

/// The model of a `RenderState`.
#[verifier::ext_equal]
pub enum RenderStateView {
    Ready,
    Acquiring { origin: RenderOrigin },
    Collecting { origin: RenderOrigin },
    CheckingBefore { origin: RenderOrigin, after: Seq<u8> },
    CheckingAfter { origin: RenderOrigin, before: Seq<u8> },
    Saving { origin: RenderOrigin, before: Seq<u8>, after: Seq<u8> },
    Placing {
        origin: RenderOrigin,
        before: Seq<u8>,
        after: Seq<u8>,
        plan: output::OutputPlanView,
    },
    Probing { origin: RenderOrigin, before: Seq<u8>, after: Seq<u8>, output: Seq<u8> },
    Running { origin: RenderOrigin, before: Seq<u8>, after: Seq<u8>, output: Seq<u8> },
    Finished,
}

impl View for RenderState {
    type V = RenderStateView;

    open spec fn view(&self) -> RenderStateView {
        match self {
            RenderState::Ready => RenderStateView::Ready,
            RenderState::Acquiring { origin } => RenderStateView::Acquiring { origin: *origin },
            RenderState::Collecting { origin } => RenderStateView::Collecting { origin: *origin },
            RenderState::CheckingBefore { origin, after } => RenderStateView::CheckingBefore {
                origin: *origin,
                after: after@,
            },
            RenderState::CheckingAfter { origin, before } => RenderStateView::CheckingAfter {
                origin: *origin,
                before: before@,
            },
            RenderState::Saving { origin, before, after } => RenderStateView::Saving {
                origin: *origin,
                before: before@,
                after: after@,
            },
            RenderState::Placing { origin, before, after, plan } => RenderStateView::Placing {
                origin: *origin,
                before: before@,
                after: after@,
                plan: plan@,
            },
            RenderState::Probing { origin, before, after, output } => RenderStateView::Probing {
                origin: *origin,
                before: before@,
                after: after@,
                output: output@,
            },
            RenderState::Running { origin, before, after, output } => RenderStateView::Running {
                origin: *origin,
                before: before@,
                after: after@,
                output: output@,
            },
            RenderState::Finished => RenderStateView::Finished,
        }
    }
}

/// What happened outside.
#[derive(Debug)]
pub enum RenderEvent {
    /// A video with a ripple from this origin was asked for.
    Requested(RenderOrigin),
    /// Whether the flag was acquired: it was not, where another video is being rendered.
    FlagTried { acquired: bool },
    /// The chosen images, where they could be read.
    Collected(Option<SelectedImages>),
    /// The file system was asked about an image.
    Examined(ImageProbe),
    /// The dialog was closed.
    Saved(PickOutcome),
    /// The folder of the video without links, where it could be found.
    FolderResolved(Option<FilePath>),
    /// What stands at the path of the video.
    Probed(Occupant),
    /// How the run of the renderer went, unless its thread stopped.
    Ran(Option<RendererRun>),
}

/// The model of a `RenderEvent`.
#[verifier::ext_equal]
pub enum RenderEventView {
    Requested(RenderOrigin),
    FlagTried { acquired: bool },
    Collected(Option<selection::SelectedImagesView>),
    Examined(selection::ImageProbeView),
    Saved(picking::PickOutcomeView),
    FolderResolved(Option<Seq<u8>>),
    Probed(Occupant),
    Ran(Option<renderer::RendererRunView>),
}

impl View for RenderEvent {
    type V = RenderEventView;

    open spec fn view(&self) -> RenderEventView {
        match self {
            RenderEvent::Requested(origin) => RenderEventView::Requested(*origin),
            RenderEvent::FlagTried { acquired } => RenderEventView::FlagTried {
                acquired: *acquired,
            },
            RenderEvent::Collected(images) => RenderEventView::Collected(
                text::option_view(*images),
            ),
            RenderEvent::Examined(probe) => RenderEventView::Examined(probe@),
            RenderEvent::Saved(outcome) => RenderEventView::Saved(outcome@),
            RenderEvent::FolderResolved(folder) => RenderEventView::FolderResolved(
                text::option_view(*folder),
            ),
            RenderEvent::Probed(occupant) => RenderEventView::Probed(*occupant),
            RenderEvent::Ran(run) => RenderEventView::Ran(text::option_view(*run)),
        }
    }
}

/// What is to be done outside.
#[derive(Debug)]
pub enum RenderAction {
    /// Try to acquire the flag.
    AcquireFlag,
    /// Read the chosen images.
    ReadSelection,
    /// Ask the file system about the path of an image.
    ExamineImage { path: FilePath },
    /// Open the dialog for the path of the video.
    OpenSaveDialog { prompt: DialogPrompt },
    /// Ask the file system for the folder without links.
    ResolveFolder { folder: FilePath },
    /// Ask the file system what stands at the path of the video, and about the two images.
    ProbeOutput { before: FilePath, after: FilePath, output: FilePath },
    /// Run the renderer.
    RunRenderer { origin: RenderOrigin, before: FilePath, after: FilePath, output: FilePath },
    /// Release the flag, if `release` says so, and answer that no video was rendered.
    Cancel { release: bool },
    /// Release the flag, if `release` says so, and answer with the message.
    Refuse { release: bool, message: String },
    /// Release the flag, if `release` says so, and answer with the result.
    Complete { release: bool, result: RenderResult },
}

/// The model of a `RenderAction`.
#[verifier::ext_equal]
pub enum RenderActionView {
    AcquireFlag,
    ReadSelection,
    ExamineImage { path: Seq<u8> },
    OpenSaveDialog { prompt: dialog::DialogPromptView },
    ResolveFolder { folder: Seq<u8> },
    ProbeOutput { before: Seq<u8>, after: Seq<u8>, output: Seq<u8> },
    RunRenderer { origin: RenderOrigin, before: Seq<u8>, after: Seq<u8>, output: Seq<u8> },
    Cancel { release: bool },
    Refuse { release: bool, message: Seq<char> },
    Complete { release: bool, result: renderer::RenderResultView },
}

impl View for RenderAction {
    type V = RenderActionView;

    open spec fn view(&self) -> RenderActionView {
        match self {
            RenderAction::AcquireFlag => RenderActionView::AcquireFlag,
            RenderAction::ReadSelection => RenderActionView::ReadSelection,
            RenderAction::ExamineImage { path } => RenderActionView::ExamineImage { path: path@ },
            RenderAction::OpenSaveDialog { prompt } => RenderActionView::OpenSaveDialog {
                prompt: prompt@,
            },
            RenderAction::ResolveFolder { folder } => RenderActionView::ResolveFolder {
                folder: folder@,
            },
            RenderAction::ProbeOutput { before, after, output } => RenderActionView::ProbeOutput {
                before: before@,
                after: after@,
                output: output@,
            },
            RenderAction::RunRenderer { origin, before, after, output } => {
                RenderActionView::RunRenderer {
                    origin: *origin,
                    before: before@,
                    after: after@,
                    output: output@,
                }
            },
            RenderAction::Cancel { release } => RenderActionView::Cancel { release: *release },
            RenderAction::Refuse { release, message } => RenderActionView::Refuse {
                release: *release,
                message: message@,
            },
            RenderAction::Complete { release, result } => RenderActionView::Complete {
                release: *release,
                result: result@,
            },
        }
    }
}

/// Whether `event` is what a job in `state` waits for.
pub open spec fn render_awaits(state: RenderStateView, event: RenderEventView) -> bool {
    match (state, event) {
        (RenderStateView::Ready, RenderEventView::Requested(_)) => true,
        (RenderStateView::Acquiring { .. }, RenderEventView::FlagTried { .. }) => true,
        (RenderStateView::Collecting { .. }, RenderEventView::Collected(_)) => true,
        (RenderStateView::CheckingBefore { .. }, RenderEventView::Examined(_)) => true,
        (RenderStateView::CheckingAfter { .. }, RenderEventView::Examined(_)) => true,
        (RenderStateView::Saving { .. }, RenderEventView::Saved(_)) => true,
        (RenderStateView::Placing { .. }, RenderEventView::FolderResolved(_)) => true,
        (RenderStateView::Probing { .. }, RenderEventView::Probed(_)) => true,
        (RenderStateView::Running { .. }, RenderEventView::Ran(_)) => true,
        _ => false,
    }
}

/// The end of a job that holds the flag or not, answered with `message`.
pub open spec fn refusal(release: bool, message: Seq<char>) -> (RenderStateView, RenderActionView) {
    (RenderStateView::Finished, RenderActionView::Refuse { release, message })
}

/// The next state of a job and what is to be done.
pub open spec fn render_step(state: RenderStateView, event: RenderEventView) -> (
    RenderStateView,
    RenderActionView,
) {
    match (state, event) {
        (RenderStateView::Ready, RenderEventView::Requested(origin)) => {
            if origin::is_origin_in_frame(origin) {
                (RenderStateView::Acquiring { origin }, RenderActionView::AcquireFlag)
            } else {
                refusal(false, "Choose a ripple origin inside the frame."@)
            }
        },
        (RenderStateView::Acquiring { origin }, RenderEventView::FlagTried { acquired }) => {
            if acquired {
                (RenderStateView::Collecting { origin }, RenderActionView::ReadSelection)
            } else {
                refusal(false, "A ripple video is already rendering."@)
            }
        },
        (RenderStateView::Collecting { origin }, RenderEventView::Collected(images)) => {
            match images {
                None => refusal(true, selection::selection_unavailable()),
                Some(images) => match (images.before, images.after) {
                    (None, _) => refusal(true, "Choose a before image first."@),
                    (Some(_), None) => refusal(true, "Choose an after image first."@),
                    (Some(before), Some(after)) => (
                        RenderStateView::CheckingBefore { origin, after: after.path },
                        RenderActionView::ExamineImage { path: before.path },
                    ),
                },
            }
        },
        (RenderStateView::CheckingBefore { origin, after }, RenderEventView::Examined(probe)) => {
            match selection::image_verdict(probe) {
                Ok(image) => (
                    RenderStateView::CheckingAfter { origin, before: image.path },
                    RenderActionView::ExamineImage { path: after },
                ),
                Err(message) => refusal(true, message),
            }
        },
        (RenderStateView::CheckingAfter { origin, before }, RenderEventView::Examined(probe)) => {
            match selection::image_verdict(probe) {
                Ok(image) => (
                    RenderStateView::Saving { origin, before, after: image.path },
                    RenderActionView::OpenSaveDialog { prompt: dialog::video_dialog() },
                ),
                Err(message) => refusal(true, message),
            }
        },
        (RenderStateView::Saving { origin, before, after }, RenderEventView::Saved(outcome)) => {
            match outcome {
                picking::PickOutcomeView::Failed => refusal(
                    true,
                    "The save dialog could not be opened."@,
                ),
                picking::PickOutcomeView::Cancelled => (
                    RenderStateView::Finished,
                    RenderActionView::Cancel { release: true },
                ),
                picking::PickOutcomeView::NotLocal => refusal(
                    true,
                    "Choose a local folder for the MP4."@,
                ),
                picking::PickOutcomeView::Local(asked) => match output::output_plan(asked) {
                    Ok(plan) => (
                        RenderStateView::Placing { origin, before, after, plan },
                        RenderActionView::ResolveFolder { folder: plan.folder },
                    ),
                    Err(message) => refusal(true, message),
                },
            }
        },
        (
            RenderStateView::Placing { origin, before, after, plan },
            RenderEventView::FolderResolved(folder),
        ) => match output::output_place(plan, folder, before, after) {
            Ok(output) => (
                RenderStateView::Probing { origin, before, after, output },
                RenderActionView::ProbeOutput { before, after, output },
            ),
            Err(message) => refusal(true, message),
        },
        (
            RenderStateView::Probing { origin, before, after, output },
            RenderEventView::Probed(occupant),
        ) => match output::occupant_objection(occupant) {
            None => (
                RenderStateView::Running { origin, before, after, output },
                RenderActionView::RunRenderer { origin, before, after, output },
            ),
            Some(message) => refusal(true, message),
        },
        (
            RenderStateView::Running { origin, before, after, output },
            RenderEventView::Ran(run),
        ) => match run {
            None => refusal(true, "The Metal renderer stopped unexpectedly."@),
            Some(run) => match renderer::run_verdict(before, after, output, run) {
                Ok(result) => (
                    RenderStateView::Finished,
                    RenderActionView::Complete { release: true, result },
                ),
                Err(message) => refusal(true, message),
            },
        },
        _ => arbitrary(),
    }
}

/// A step of a job: its next state and what is to be done.
#[derive(Debug)]
pub struct RenderStep {
    pub state: RenderState,
    pub action: RenderAction,
}

fn refuse(release: bool, message: String) -> (step: RenderStep)
    ensures
        (step.state@, step.action@) == refusal(release, message@),
{
    RenderStep { state: RenderState::Finished, action: RenderAction::Refuse { release, message } }
}

/// Whether a job in `state` waits for `event`.
pub fn render_accepts(state: &RenderState, event: &RenderEvent) -> (answer: bool)
    ensures
        answer == render_awaits(state@, event@),
{
    match (state, event) {
        (RenderState::Ready, RenderEvent::Requested(_)) => true,
        (RenderState::Acquiring { .. }, RenderEvent::FlagTried { .. }) => true,
        (RenderState::Collecting { .. }, RenderEvent::Collected(_)) => true,
        (RenderState::CheckingBefore { .. }, RenderEvent::Examined(_)) => true,
        (RenderState::CheckingAfter { .. }, RenderEvent::Examined(_)) => true,
        (RenderState::Saving { .. }, RenderEvent::Saved(_)) => true,
        (RenderState::Placing { .. }, RenderEvent::FolderResolved(_)) => true,
        (RenderState::Probing { .. }, RenderEvent::Probed(_)) => true,
        (RenderState::Running { .. }, RenderEvent::Ran(_)) => true,
        _ => false,
    }
}

/// The step of a job that has the chosen images.
fn collect(origin: RenderOrigin, images: Option<SelectedImages>) -> (step: RenderStep)
    ensures
        (step.state@, step.action@) == render_step(
            RenderStateView::Collecting { origin },
            RenderEventView::Collected(text::option_view(images)),
        ),
{
    match images {
        None => refuse(true, "The image selection state is unavailable.".to_owned()),
        Some(images) => match (images.before, images.after) {
            (None, _) => refuse(true, "Choose a before image first.".to_owned()),
            (Some(_), None) => refuse(true, "Choose an after image first.".to_owned()),
            (Some(before), Some(after)) => RenderStep {
                state: RenderState::CheckingBefore { origin, after: after.path },
                action: RenderAction::ExamineImage { path: before.path },
            },
        },
    }
}

/// The step of a job that has the path for the video.
fn save(origin: RenderOrigin, before: FilePath, after: FilePath, outcome: PickOutcome) -> (step:
    RenderStep)
    ensures
        (step.state@, step.action@) == render_step(
            RenderStateView::Saving { origin, before: before@, after: after@ },
            RenderEventView::Saved(outcome@),
        ),
{
    match outcome {
        PickOutcome::Failed => refuse(true, "The save dialog could not be opened.".to_owned()),
        PickOutcome::Cancelled => RenderStep {
            state: RenderState::Finished,
            action: RenderAction::Cancel { release: true },
        },
        PickOutcome::NotLocal => refuse(true, "Choose a local folder for the MP4.".to_owned()),
        PickOutcome::Local(asked) => match output::plan_output(asked) {
            Ok(plan) => {
                let folder = plan.folder.clone();
                RenderStep {
                    state: RenderState::Placing { origin, before, after, plan },
                    action: RenderAction::ResolveFolder { folder },
                }
            },
            Err(message) => refuse(true, message),
        },
    }
}

/// Takes the rendering of a video one step on.
pub fn render_ripple_video(state: RenderState, event: RenderEvent) -> (step: RenderStep)
    requires
        render_awaits(state@, event@),
    ensures
        (step.state@, step.action@) == render_step(state@, event@),
        (state@, event@) matches (
            RenderStateView::Running { before, after, output, .. },
            RenderEventView::Ran(Some(renderer::RendererRunView::Failed { stderr })),
        ) ==> report::reads_faithfully(stderr, seq![before, after, output]),
{
    match (state, event) {
        (RenderState::Ready, RenderEvent::Requested(origin)) => {
            match origin::validate_render_origin(origin) {
                Ok(origin) => RenderStep {
                    state: RenderState::Acquiring { origin },
                    action: RenderAction::AcquireFlag,
                },
                Err(message) => refuse(false, message),
            }
        },
        (RenderState::Acquiring { origin }, RenderEvent::FlagTried { acquired }) => if acquired {
            RenderStep {
                state: RenderState::Collecting { origin },
                action: RenderAction::ReadSelection,
            }
        } else {
            refuse(false, "A ripple video is already rendering.".to_owned())
        },
        (RenderState::Collecting { origin }, RenderEvent::Collected(images)) => collect(
            origin,
            images,
        ),
        (RenderState::CheckingBefore { origin, after }, RenderEvent::Examined(probe)) => {
            match selection::validate_image(probe) {
                Ok(image) => RenderStep {
                    state: RenderState::CheckingAfter { origin, before: image.path },
                    action: RenderAction::ExamineImage { path: after },
                },
                Err(message) => refuse(true, message),
            }
        },
        (RenderState::CheckingAfter { origin, before }, RenderEvent::Examined(probe)) => {
            match selection::validate_image(probe) {
                Ok(image) => RenderStep {
                    state: RenderState::Saving { origin, before, after: image.path },
                    action: RenderAction::OpenSaveDialog { prompt: dialog::video_prompt() },
                },
                Err(message) => refuse(true, message),
            }
        },
        (RenderState::Saving { origin, before, after }, RenderEvent::Saved(outcome)) => save(
            origin,
            before,
            after,
            outcome,
        ),
        (
            RenderState::Placing { origin, before, after, plan },
            RenderEvent::FolderResolved(folder),
        ) => match output::place_output(&plan, folder, &before, &after) {
            Ok(output) => {
                let action = RenderAction::ProbeOutput {
                    before: before.clone(),
                    after: after.clone(),
                    output: output.clone(),
                };
                RenderStep { state: RenderState::Probing { origin, before, after, output }, action }
            },
            Err(message) => refuse(true, message),
        },
        (
            RenderState::Probing { origin, before, after, output },
            RenderEvent::Probed(occupant),
        ) => match output::confirm_output(occupant) {
            Ok(_) => {
                let action = RenderAction::RunRenderer {
                    origin,
                    before: before.clone(),
                    after: after.clone(),
                    output: output.clone(),
                };
                RenderStep { state: RenderState::Running { origin, before, after, output }, action }
            },
            Err(message) => refuse(true, message),
        },
        (RenderState::Running { origin, before, after, output }, RenderEvent::Ran(run)) => {
            match run {
                None => refuse(true, "The Metal renderer stopped unexpectedly.".to_owned()),
                Some(run) => match renderer::run_renderer(&before, &after, &output, run) {
                    Ok(result) => RenderStep {
                        state: RenderState::Finished,
                        action: RenderAction::Complete { release: true, result },
                    },
                    Err(message) => refuse(true, message),
                },
            }
        },
        _ => vstd::pervasive::unreached(),
    }
}

/// Whether a job in `state` holds the flag that a video is being rendered.
pub open spec fn holds_flag(state: RenderStateView) -> bool {
    !(state is Ready || state is Acquiring || state is Finished)
}

/// Whether `action` ends a job, and if so whether the flag is released.
pub open spec fn releases(action: RenderActionView) -> bool {
    match action {
        RenderActionView::Cancel { release } => release,
        RenderActionView::Refuse { release, .. } => release,
        RenderActionView::Complete { release, .. } => release,
        _ => false,
    }
}

/// Whether `path` is one that an image that was found fit can have.
pub open spec fn is_fit_image(path: Seq<u8>) -> bool {
    selection::is_image_path(path) && selection::file_name_text(path) is Some
}

/// Whether `output` may be written to next to the images `before` and `after`.
pub open spec fn is_fit_output(before: Seq<u8>, after: Seq<u8>, output: Seq<u8>) -> bool {
    &&& output::is_video_path(output)
    &&& !path::same_path(output, before)
    &&& !path::same_path(output, after)
}

/// What holds in every state that a job can reach: whatever it carries was checked.
pub open spec fn is_sound(state: RenderStateView) -> bool {
    match state {
        RenderStateView::Ready => true,
        RenderStateView::Acquiring { origin } => origin::is_origin_in_frame(origin),
        RenderStateView::Collecting { origin } => origin::is_origin_in_frame(origin),
        RenderStateView::CheckingBefore { origin, after } => origin::is_origin_in_frame(origin),
        RenderStateView::CheckingAfter { origin, before } => {
            origin::is_origin_in_frame(origin) && is_fit_image(before)
        },
        RenderStateView::Saving { origin, before, after } => {
            origin::is_origin_in_frame(origin) && is_fit_image(before) && is_fit_image(after)
        },
        RenderStateView::Placing { origin, before, after, plan } => {
            &&& origin::is_origin_in_frame(origin)
            &&& is_fit_image(before)
            &&& is_fit_image(after)
            &&& path::file_name(plan.path) is Some ==> output::is_video_path(plan.path)
        },
        RenderStateView::Probing { origin, before, after, output } => {
            &&& origin::is_origin_in_frame(origin)
            &&& is_fit_image(before)
            &&& is_fit_image(after)
            &&& is_fit_output(before, after, output)
        },
        RenderStateView::Running { origin, before, after, output } => {
            &&& origin::is_origin_in_frame(origin)
            &&& is_fit_image(before)
            &&& is_fit_image(after)
            &&& is_fit_output(before, after, output)
        },
        RenderStateView::Finished => true,
    }
}

/// Every step keeps what holds in every state.
pub proof fn step_keeps_soundness(state: RenderStateView, event: RenderEventView)
    requires
        is_sound(state),
        render_awaits(state, event),
    ensures
        is_sound(render_step(state, event).0),
{
    if let RenderEventView::Examined(probe) = event {
        selection::image_accepted(probe);
    }
    if let RenderEventView::Saved(picking::PickOutcomeView::Local(asked)) = event {
        output::plan_is_video(asked);
    }
    if let RenderStateView::Placing { origin, before, after, plan } = state {
        if let RenderEventView::FolderResolved(folder) = event {
            output::place_is_in_folder(plan, folder, before, after);
        }
    }
}

/// The state and the flag of a job after `events`, which starts without the flag.
pub open spec fn after_events(events: Seq<RenderEventView>) -> (RenderStateView, bool)
    decreases events.len(),
{
    if events.len() == 0 {
        (RenderStateView::Ready, false)
    } else {
        let (state, held) = after_events(events.drop_last());
        let (next, action) = render_step(state, events.last());
        let acquired = events.last() == (RenderEventView::FlagTried { acquired: true });
        (next, (held || acquired) && !releases(action))
    }
}

/// Whether each of `events` is what the job waits for when it comes.
pub open spec fn are_awaited(events: Seq<RenderEventView>) -> bool
    decreases events.len(),
{
    events.len() > 0 ==> are_awaited(events.drop_last()) && render_awaits(
        after_events(events.drop_last()).0,
        events.last(),
    )
}

/// What is to be done after the event at the position `at` of `events`.
pub open spec fn action_at(events: Seq<RenderEventView>, at: int) -> RenderActionView {
    render_step(after_events(events.take(at)).0, events[at]).1
}

/// Whatever happens outside, a job only ever carries what was checked.
pub proof fn job_is_sound(events: Seq<RenderEventView>)
    requires
        are_awaited(events),
    ensures
        is_sound(after_events(events).0),
    decreases events.len(),
{
    if events.len() > 0 {
        job_is_sound(events.drop_last());
        step_keeps_soundness(after_events(events.drop_last()).0, events.last());
    }
}

/// Whether `event` is the examination that found the image at `path` fit.
pub open spec fn found_fit(event: RenderEventView, path: Seq<u8>) -> bool {
    event matches RenderEventView::Examined(probe) && selection::image_verdict(probe) matches Ok(
        image,
    ) && image.path == path
}

/// Whether `events` start with the request for a video from `origin` and the acquired flag.
pub open spec fn began(events: Seq<RenderEventView>, origin: RenderOrigin) -> bool {
    &&& origin::is_origin_in_frame(origin)
    &&& events[0] == RenderEventView::Requested(origin)
    &&& events[1] == RenderEventView::FlagTried { acquired: true }
}

/// Whether `events` go on with a selection of two images, which were then found fit at `before`
/// and at `after`.
pub open spec fn revalidated(events: Seq<RenderEventView>, before: Seq<u8>, after: Seq<u8>) -> bool {
    &&& events[2] matches RenderEventView::Collected(Some(images)) && images.before is Some
        && images.after is Some
    &&& found_fit(events[3], before)
    &&& found_fit(events[4], after)
}

/// Whether the images that were examined are the two that were chosen, each at its own path.
pub open spec fn examined_the_chosen(events: Seq<RenderEventView>) -> bool {
    events[2] matches RenderEventView::Collected(Some(images))
        && images.before matches Some(before) && images.after matches Some(after)
        && action_at(events, 2) == (RenderActionView::ExamineImage { path: before.path })
        && action_at(events, 3) == (RenderActionView::ExamineImage { path: after.path })
}

/// Whether `events` go on with a path that was picked, and `plan` is the plan for it.
pub open spec fn planned(events: Seq<RenderEventView>, plan: output::OutputPlanView) -> bool {
    events[5] matches RenderEventView::Saved(picking::PickOutcomeView::Local(asked))
        && output::output_plan(asked) == Ok::<_, Seq<char>>(plan)
}

/// Whether `events` go on with the folder in which the plan for the path that was picked is placed
/// at `output`.
pub open spec fn placed(
    events: Seq<RenderEventView>,
    before: Seq<u8>,
    after: Seq<u8>,
    output: Seq<u8>,
) -> bool {
    events[5] matches RenderEventView::Saved(picking::PickOutcomeView::Local(asked))
        && output::output_plan(asked) matches Ok(plan)
        && events[6] matches RenderEventView::FolderResolved(folder) && output::output_place(
        plan,
        folder,
        before,
        after,
    ) == Ok::<_, Seq<char>>(output)
}

/// Whether `events` can have brought a job to `state`, as long as it has not ended.
pub open spec fn is_history(events: Seq<RenderEventView>, state: RenderStateView) -> bool {
    match state {
        RenderStateView::Ready => events.len() == 0,
        RenderStateView::Acquiring { origin } => {
            &&& events.len() == 1
            &&& origin::is_origin_in_frame(origin)
            &&& events[0] == RenderEventView::Requested(origin)
        },
        RenderStateView::Collecting { origin } => events.len() == 2 && began(events, origin),
        RenderStateView::CheckingBefore { origin, after } => {
            &&& events.len() == 3
            &&& began(events, origin)
            &&& events[2] matches RenderEventView::Collected(Some(images)) && images.before is Some
                && (images.after matches Some(image) && image.path == after)
        },
        RenderStateView::CheckingAfter { origin, before } => {
            &&& events.len() == 4
            &&& began(events, origin)
            &&& events[2] matches RenderEventView::Collected(Some(images)) && images.before is Some
                && images.after is Some
            &&& found_fit(events[3], before)
        },
        RenderStateView::Saving { origin, before, after } => {
            &&& events.len() == 5
            &&& began(events, origin)
            &&& revalidated(events, before, after)
        },
        RenderStateView::Placing { origin, before, after, plan } => {
            &&& events.len() == 6
            &&& began(events, origin)
            &&& revalidated(events, before, after)
            &&& planned(events, plan)
        },
        RenderStateView::Probing { origin, before, after, output } => {
            &&& events.len() == 7
            &&& began(events, origin)
            &&& revalidated(events, before, after)
            &&& placed(events, before, after, output)
        },
        RenderStateView::Running { origin, before, after, output } => {
            &&& events.len() == 8
            &&& began(events, origin)
            &&& revalidated(events, before, after)
            &&& placed(events, before, after, output)
            &&& events[7] matches RenderEventView::Probed(occupant) && output::occupant_objection(
                occupant,
            ) is None
        },
        RenderStateView::Finished => true,
    }
}

/// A job carries nothing but what its events brought.
pub proof fn job_has_a_history(events: Seq<RenderEventView>)
    requires
        are_awaited(events),
    ensures
        is_history(events, after_events(events).0),
    decreases events.len(),
{
    if events.len() > 0 {
        let earlier = events.drop_last();
        job_has_a_history(earlier);
        assert(forall|i: int| 0 <= i < earlier.len() ==> #[trigger] earlier[i] == events[i]);
    }
}

/// What one more of `events` makes of a job.
proof fn lemma_extend(events: Seq<RenderEventView>, n: int)
    requires
        0 < n <= events.len(),
        are_awaited(events.take(n - 1)),
        render_awaits(after_events(events.take(n - 1)).0, events[n - 1]),
    ensures
        are_awaited(events.take(n)),
        after_events(events.take(n)).0 == render_step(
            after_events(events.take(n - 1)).0,
            events[n - 1],
        ).0,
{
    assert(events.take(n).drop_last() =~= events.take(n - 1));
    assert(events.take(n).last() == events[n - 1]);
}

/// The states and the actions of a job up to the dialog for the path of the video.
proof fn lemma_examinations(
    events: Seq<RenderEventView>,
    origin: RenderOrigin,
    before: Seq<u8>,
    after: Seq<u8>,
)
    requires
        events.len() >= 5,
        began(events, origin),
        revalidated(events, before, after),
    ensures
        are_awaited(events.take(5)),
        after_events(events.take(5)).0 == (RenderStateView::Saving { origin, before, after }),
        examined_the_chosen(events),
        action_at(events, 0) == RenderActionView::AcquireFlag,
        action_at(events, 1) == RenderActionView::ReadSelection,
        action_at(events, 4) == (RenderActionView::OpenSaveDialog {
            prompt: dialog::video_dialog(),
        }),
{
    assert(are_awaited(events.take(0)));
    lemma_extend(events, 1);
    lemma_extend(events, 2);
    lemma_extend(events, 3);
    lemma_extend(events, 4);
    lemma_extend(events, 5);
}

/// A job that has the chosen images has the file system asked about the one before first, and
/// about the one after where that one was found fit.
pub proof fn chosen_images_are_examined(
    origin: RenderOrigin,
    images: selection::SelectedImagesView,
    probe: selection::ImageProbeView,
)
    requires
        images.before is Some,
        images.after is Some,
        selection::image_verdict(probe) is Ok,
    ensures
        ({
            let collected = render_step(
                RenderStateView::Collecting { origin },
                RenderEventView::Collected(Some(images)),
            );
            let examined = render_step(collected.0, RenderEventView::Examined(probe));
            &&& collected.0 == (RenderStateView::CheckingBefore {
                origin,
                after: images.after->0.path,
            })
            &&& collected.1 == (RenderActionView::ExamineImage { path: images.before->0.path })
            &&& examined.0 == (RenderStateView::CheckingAfter {
                origin,
                before: selection::image_verdict(probe)->Ok_0.path,
            })
            &&& examined.1 == (RenderActionView::ExamineImage { path: images.after->0.path })
        }),
{
}

/// A job whose save dialog is cancelled ends without a message and without a run of the renderer,
/// after the dialog was opened once, as the dialog for a video.
pub proof fn cancelled_save_renders_nothing(
    events: Seq<RenderEventView>,
    origin: RenderOrigin,
    before: Seq<u8>,
    after: Seq<u8>,
)
    requires
        events.len() == 6,
        began(events, origin),
        revalidated(events, before, after),
        events[5] == RenderEventView::Saved(picking::PickOutcomeView::Cancelled),
    ensures
        are_awaited(events),
        after_events(events) == (RenderStateView::Finished, false),
        action_at(events, 4) == (RenderActionView::OpenSaveDialog {
            prompt: dialog::video_dialog(),
        }),
        action_at(events, 5) == (RenderActionView::Cancel { release: true }),
        forall|i: int|
            0 <= i < 6 ==> !(#[trigger] action_at(events, i) is RunRenderer) && (action_at(
                events,
                i,
            ) is OpenSaveDialog <==> i == 4),
{
    lemma_examinations(events, origin, before, after);
    lemma_extend(events, 6);
    assert(events.take(6) =~= events);
    assert(events.drop_last() =~= events.take(5));
    assert forall|i: int| 0 <= i < 6 implies !(#[trigger] action_at(events, i) is RunRenderer) && (
    action_at(events, i) is OpenSaveDialog <==> i == 4) by {
        assert(i == 0 || i == 1 || i == 2 || i == 3 || i == 4 || i == 5);
    }
}

/// Whatever happens outside, the renderer is only ever run from an origin inside the frame, by a
/// job that acquired the flag, on the two chosen images, which were examined and found fit after
/// that, and into the video that was accepted for the path that was picked.
pub proof fn renderer_runs_on_what_was_checked(
    events: Seq<RenderEventView>,
    origin: RenderOrigin,
    before: Seq<u8>,
    after: Seq<u8>,
    output: Seq<u8>,
)
    requires
        are_awaited(events),
        events.len() > 0,
        render_step(after_events(events.drop_last()).0, events.last()).1 == (
        RenderActionView::RunRenderer { origin, before, after, output }),
    ensures
        events.len() == 8,
        began(events, origin),
        examined_the_chosen(events),
        revalidated(events, before, after),
        events[5] matches RenderEventView::Saved(picking::PickOutcomeView::Local(asked))
            && events[6] matches RenderEventView::FolderResolved(folder)
            && events[7] matches RenderEventView::Probed(occupant) && output::output_verdict(
            asked,
            before,
            after,
            folder,
            occupant,
        ) == Ok::<_, Seq<char>>(output),
        is_fit_image(before),
        is_fit_image(after),
        is_fit_output(before, after, output),
{
    job_is_sound(events);
    job_has_a_history(events);
    lemma_examinations(events, origin, before, after);
}

/// Where nothing stands in the way the renderer is run: a job that is asked for a video from an
/// origin inside the frame, acquires the flag, finds both images fit and the path that was picked
/// acceptable, comes to the run of the renderer on exactly these.
pub proof fn fit_job_runs_the_renderer(
    events: Seq<RenderEventView>,
    origin: RenderOrigin,
    before: Seq<u8>,
    after: Seq<u8>,
    output: Seq<u8>,
)
    requires
        events.len() == 8,
        began(events, origin),
        revalidated(events, before, after),
        events[5] matches RenderEventView::Saved(picking::PickOutcomeView::Local(asked))
            && events[6] matches RenderEventView::FolderResolved(folder)
            && events[7] matches RenderEventView::Probed(occupant) && output::output_verdict(
            asked,
            before,
            after,
            folder,
            occupant,
        ) == Ok::<_, Seq<char>>(output),
    ensures
        are_awaited(events),
        after_events(events).0 == (RenderStateView::Running { origin, before, after, output }),
        render_step(after_events(events.drop_last()).0, events.last()).1 == (
        RenderActionView::RunRenderer { origin, before, after, output }),
{
    lemma_examinations(events, origin, before, after);
    lemma_extend(events, 6);
    lemma_extend(events, 7);
    lemma_extend(events, 8);
    assert(events.take(8) =~= events);
    assert(events.drop_last() =~= events.take(7));
}

/// Whatever happens outside, a job holds the flag from the step that acquired it to the step that
/// ends it: a job that has ended has given the flag back, and one that did not get it never
/// releases it.
pub proof fn flag_is_given_back(events: Seq<RenderEventView>)
    requires
        are_awaited(events),
    ensures
        after_events(events).1 == holds_flag(after_events(events).0),
        after_events(events).0 is Finished ==> !after_events(events).1,
        events.len() > 0 ==> (releases(
            render_step(after_events(events.drop_last()).0, events.last()).1,
        ) ==> after_events(events.drop_last()).1),
    decreases events.len(),
{
    if events.len() > 0 {
        flag_is_given_back(events.drop_last());
    }
}

/// A second video is refused while one is being rendered, and the flag is left to the first.
pub proof fn second_video_is_refused(origin: RenderOrigin)
    ensures
        render_step(
            RenderStateView::Acquiring { origin },
            RenderEventView::FlagTried { acquired: false },
        ) == (
            RenderStateView::Finished,
            RenderActionView::Refuse {
                release: false,
                message: "A ripple video is already rendering."@,
            },
        ),
{
}

/// Jobs that share the flag that a video is being rendered: whether the flag is set, and the state
/// of each job.
pub struct SharedFlag {
    pub set: bool,
    pub jobs: Seq<RenderStateView>,
}

/// Whether the job `k` waits for `event`. An attempt to acquire the flag succeeds exactly if the
/// flag is not set.
pub open spec fn shared_awaits(shared: SharedFlag, k: int, event: RenderEventView) -> bool {
    &&& 0 <= k < shared.jobs.len()
    &&& render_awaits(shared.jobs[k], event)
    &&& event matches RenderEventView::FlagTried { acquired } ==> acquired == !shared.set
}

/// What the flag and the jobs are once the job `k` has got `event`.
pub open spec fn shared_step(shared: SharedFlag, k: int, event: RenderEventView) -> SharedFlag {
    let (next, action) = render_step(shared.jobs[k], event);
    SharedFlag {
        set: (shared.set || event == (RenderEventView::FlagTried { acquired: true })) && !releases(
            action,
        ),
        jobs: shared.jobs.update(k, next),
    }
}

/// The flag and `count` jobs after `trace`, whose entries each give an event to one of the jobs.
pub open spec fn after_trace(count: nat, trace: Seq<(int, RenderEventView)>) -> SharedFlag
    decreases trace.len(),
{
    if trace.len() == 0 {
        SharedFlag { set: false, jobs: Seq::new(count, |i: int| RenderStateView::Ready) }
    } else {
        shared_step(after_trace(count, trace.drop_last()), trace.last().0, trace.last().1)
    }
}

/// Whether each entry of `trace` is what its job waits for when it comes.
pub open spec fn is_trace(count: nat, trace: Seq<(int, RenderEventView)>) -> bool
    decreases trace.len(),
{
    trace.len() > 0 ==> is_trace(count, trace.drop_last()) && shared_awaits(
        after_trace(count, trace.drop_last()),
        trace.last().0,
        trace.last().1,
    )
}

/// The events of `trace` that the job `k` got.
pub open spec fn events_of(trace: Seq<(int, RenderEventView)>, k: int) -> Seq<RenderEventView>
    decreases trace.len(),
{
    if trace.len() == 0 {
        Seq::empty()
    } else if trace.last().0 == k {
        events_of(trace.drop_last(), k).push(trace.last().1)
    } else {
        events_of(trace.drop_last(), k)
    }
}

/// Each of the jobs that share the flag goes as a job goes by itself.
pub proof fn shared_job_is_a_job(count: nat, trace: Seq<(int, RenderEventView)>, k: int)
    requires
        is_trace(count, trace),
        0 <= k < count,
    ensures
        after_trace(count, trace).jobs.len() == count,
        are_awaited(events_of(trace, k)),
        after_trace(count, trace).jobs[k] == after_events(events_of(trace, k)).0,
    decreases trace.len(),
{
    if trace.len() > 0 {
        shared_job_is_a_job(count, trace.drop_last(), k);
        if trace.last().0 == k {
            assert(events_of(trace, k).drop_last() =~= events_of(trace.drop_last(), k));
        }
    }
}

/// However the steps of several jobs follow one another, at most one of them holds the flag, and
/// the flag is set exactly while one does.
pub proof fn one_video_at_a_time(count: nat, trace: Seq<(int, RenderEventView)>)
    requires
        is_trace(count, trace),
    ensures
        after_trace(count, trace).jobs.len() == count,
        forall|i: int, j: int|
            0 <= i < count && 0 <= j < count && holds_flag(
                #[trigger] after_trace(count, trace).jobs[i],
            ) && holds_flag(#[trigger] after_trace(count, trace).jobs[j]) ==> i == j,
        after_trace(count, trace).set <==> exists|i: int|
            0 <= i < count && holds_flag(#[trigger] after_trace(count, trace).jobs[i]),
    decreases trace.len(),
{
    if trace.len() > 0 {
        let earlier = after_trace(count, trace.drop_last());
        let later = after_trace(count, trace);
        let (k, event) = trace.last();
        one_video_at_a_time(count, trace.drop_last());
        if later.set && !holds_flag(later.jobs[k]) {
            let i = choose|i: int| 0 <= i < count && holds_flag(#[trigger] earlier.jobs[i]);
            assert(later.jobs[i] == earlier.jobs[i]);
        }
    }
}

/// While a job holds the flag, another job that asks for it does not get it: it is refused, and
/// the flag stays with the first.
pub proof fn flag_is_not_taken_over(
    count: nat,
    trace: Seq<(int, RenderEventView)>,
    holder: int,
    other: int,
    event: RenderEventView,
)
    requires
        is_trace(count, trace),
        0 <= holder < count,
        holds_flag(after_trace(count, trace).jobs[holder]),
        shared_awaits(after_trace(count, trace), other, event),
        after_trace(count, trace).jobs[other] is Acquiring,
    ensures
        event == (RenderEventView::FlagTried { acquired: false }),
        render_step(after_trace(count, trace).jobs[other], event).1 == (RenderActionView::Refuse {
            release: false,
            message: "A ripple video is already rendering."@,
        }),
        shared_step(after_trace(count, trace), other, event).set,
        shared_step(after_trace(count, trace), other, event).jobs[holder] == after_trace(
            count,
            trace,
        ).jobs[holder],
{
    one_video_at_a_time(count, trace);
}

/// While a job holds the flag, nobody can start to choose an image.
pub proof fn choice_waits_for_the_job(
    count: nat,
    trace: Seq<(int, RenderEventView)>,
    holder: int,
    slot: selection::ImageSlot,
)
    requires
        is_trace(count, trace),
        0 <= holder < count,
        holds_flag(after_trace(count, trace).jobs[holder]),
    ensures
        picking::choose_step(
            picking::ChooseState::Ready { slot },
            picking::ChooseEventView::Begun { rendering: after_trace(count, trace).set },
        ).1 == (picking::ChooseActionView::Refuse {
            message: "Wait for the current video to finish before changing images."@,
        }),
{
    one_video_at_a_time(count, trace);
    picking::choice_waits_for_rendering(slot);
}

/// How many steps a job has taken.
pub open spec fn render_stage(state: RenderStateView) -> int {
    match state {
        RenderStateView::Ready => 0,
        RenderStateView::Acquiring { .. } => 1,
        RenderStateView::Collecting { .. } => 2,
        RenderStateView::CheckingBefore { .. } => 3,
        RenderStateView::CheckingAfter { .. } => 4,
        RenderStateView::Saving { .. } => 5,
        RenderStateView::Placing { .. } => 6,
        RenderStateView::Probing { .. } => 7,
        RenderStateView::Running { .. } => 8,
        RenderStateView::Finished => 9,
    }
}

/// Whatever happens outside, a job ends after at most nine events.
pub proof fn job_ends(events: Seq<RenderEventView>)
    requires
        are_awaited(events),
    ensures
        events.len() <= render_stage(after_events(events).0) <= 9,
    decreases events.len(),
{
    if events.len() > 0 {
        job_ends(events.drop_last());
    }
}

/// A job that fails because the renderer failed is answered with a report that does not echo a
/// path that the renderer was given, as long as this path can be told from the words of the
/// report.
pub proof fn failure_echoes_no_path(
    origin: RenderOrigin,
    before: Seq<u8>,
    after: Seq<u8>,
    output: Seq<u8>,
    stderr: Seq<u8>,
    i: int,
)
    requires
        0 <= i < 3,
        report::is_distinct(text::lossy_text(seq![before, after, output][i])),
    ensures
        render_step(
            RenderStateView::Running { origin, before, after, output },
            RenderEventView::Ran(Some(renderer::RendererRunView::Failed { stderr })),
        ).1 matches RenderActionView::Refuse { release, message } && release && !text::occurs_in(
            text::lossy_text(seq![before, after, output][i]),
            message,
        ),
{
    report::selected_paths_are_not_echoed(stderr, seq![before, after, output], i);
}

/// A job that fails because the renderer failed echoes neither an image nor a video that the
/// renderer was given, be its path written from the root to its name, and without the marker of
/// the reports in it. The path need not be UTF-8.
pub proof fn failure_echoes_no_media_path(
    origin: RenderOrigin,
    before: Seq<u8>,
    after: Seq<u8>,
    output: Seq<u8>,
    stderr: Seq<u8>,
    i: int,
)
    requires
        0 <= i < 3,
        report::reads_faithfully(stderr, seq![before, after, output]),
        ({
            let path = seq![before, after, output][i];
            &&& path::is_rooted(path)
            &&& path::through_last_name(path) == path
            &&& selection::is_image_path(path) || output::is_video_path(path)
            &&& !text::occurs_in(report::marker(), text::lossy_text(path))
        }),
    ensures
        render_step(
            RenderStateView::Running { origin, before, after, output },
            RenderEventView::Ran(Some(renderer::RendererRunView::Failed { stderr })),
        ).1 matches RenderActionView::Refuse { release, message } && release && !text::occurs_in(
            text::lossy_text(seq![before, after, output][i]),
            message,
        ),
{
    let paths = seq![before, after, output];
    assert(text::is_faithful(paths[i]));
    report::media_path_text_is_distinct(paths[i]);
    failure_echoes_no_path(origin, before, after, output, stderr, i);
}

/// A job whose renderer failed and wrote nothing but white space is refused with the fallback.
pub proof fn silent_failure_gives_the_fallback(
    origin: RenderOrigin,
    before: Seq<u8>,
    after: Seq<u8>,
    output: Seq<u8>,
    stderr: Seq<u8>,
)
    requires
        is_sound(RenderStateView::Running { origin, before, after, output }),
        report::is_blank(stderr),
        report::reads_faithfully(stderr, seq![before, after, output]),
    ensures
        render_step(
            RenderStateView::Running { origin, before, after, output },
            RenderEventView::Ran(Some(renderer::RendererRunView::Failed { stderr })),
        ).1 == (RenderActionView::Refuse { release: true, message: report::fallback() }),
{
    let paths = seq![before, after, output];
    path::named_path_is_not_empty(before);
    path::named_path_is_not_empty(after);
    path::named_path_is_not_empty(output);
    report::blank_output_gives_the_fallback(stderr, paths);
}

/// A job is cancelled by a cancelled save dialog and by nothing else, and then gives the flag back.
pub proof fn only_a_cancelled_dialog_cancels(state: RenderStateView, event: RenderEventView)
    requires
        render_awaits(state, event),
    ensures
        render_step(state, event).1 is Cancel <==> event == RenderEventView::Saved(
            picking::PickOutcomeView::Cancelled,
        ),
        render_step(state, event).1 matches RenderActionView::Cancel { release } ==> release
            && render_step(state, event).0 is Finished,
{
}

/// A job whose renderer made a video is completed with the result: the numbers of the summary, the
/// size of the file, the time of the run, and the name of the video.
pub proof fn rendered_video_is_answered(
    origin: RenderOrigin,
    before: Seq<u8>,
    after: Seq<u8>,
    output: Seq<u8>,
    summary: renderer::NativeRenderSummary,
    facts: renderer::FileFacts,
    milliseconds: u128,
)
    requires
        facts.is_file,
        facts.bytes > 0,
    ensures
        ({
            let step = render_step(
                RenderStateView::Running { origin, before, after, output },
                RenderEventView::Ran(
                    Some(
                        renderer::RendererRunView::Succeeded {
                            summary: Some(summary),
                            video: Some(facts),
                            milliseconds,
                        },
                    ),
                ),
            );
            &&& step.0 is Finished
            &&& step.1 matches RenderActionView::Complete { release, result } && release
                && result.summary.width == summary.width && result.summary.height == summary.height
                && result.summary.frames == summary.frames && result.summary.duration_seconds_bits
                == summary.duration_seconds_bits && result.summary.frames_per_second
                == summary.frames_per_second && result.output_bytes == facts.bytes
                && result.render_milliseconds == milliseconds && (path::file_name(
                output,
            ) matches Some(name) ==> valid_utf8(name) ==> encode_utf8(result.output_file_name)
                == name)
        }),
{
    renderer::result_is_what_the_run_gave(before, after, output, summary, facts, milliseconds);
}

/// A job is completed exactly where its renderer gave a summary that can be read and left a
/// regular file that is not empty.
pub proof fn only_a_video_completes(state: RenderStateView, event: RenderEventView)
    requires
        render_awaits(state, event),
    ensures
        render_step(state, event).1 is Complete <==> (event matches RenderEventView::Ran(Some(run))
            && run matches renderer::RendererRunView::Succeeded {
                summary: Some(_),
                video: Some(facts),
                ..
            }
            && facts.is_file && facts.bytes > 0),
        render_step(state, event).1 matches RenderActionView::Complete { release, .. } ==> release
            && render_step(state, event).0 is Finished,
{
}

/// A job is refused only where the origin is outside the frame, another video is being rendered, an
/// image is missing or unfit, the save dialog failed or gave no local path, the path is not one for
/// a video, or the renderer made none.
pub proof fn job_is_refused_only_for_cause(state: RenderStateView, event: RenderEventView)
    requires
        render_awaits(state, event),
    ensures
        render_step(state, event).1 is Refuse <==> match event {
            RenderEventView::Requested(origin) => !origin::is_origin_in_frame(origin),
            RenderEventView::FlagTried { acquired } => !acquired,
            RenderEventView::Collected(images) => !(images matches Some(chosen)
                && chosen.before is Some && chosen.after is Some),
            RenderEventView::Examined(probe) => !(
            probe matches selection::ImageProbeView::Found { path, is_file, bytes } && is_file && 0
                < bytes <= 104857600 && selection::is_image_path(path) && selection::file_name_text(
                path,
            ) is Some),
            RenderEventView::Saved(outcome) => match outcome {
                picking::PickOutcomeView::Failed => true,
                picking::PickOutcomeView::NotLocal => true,
                picking::PickOutcomeView::Cancelled => false,
                picking::PickOutcomeView::Local(asked) => (path::extension(asked) matches Some(
                    ending,
                ) && valid_utf8(ending) && !text::spells(ending, "mp4"@)) || (path::names(
                    asked,
                ).len() == 0 && !path::is_dotted(asked)),
            },
            RenderEventView::FolderResolved(folder) => !(folder matches Some(folder)
                && state matches RenderStateView::Placing { before, after, plan, .. }
                && path::file_name(plan.path) matches Some(name) && !path::same_path(
                path::joined(folder, name),
                before,
            ) && !path::same_path(path::joined(folder, name), after)),
            RenderEventView::Probed(occupant) => (occupant matches Occupant::Present {
                is_symlink,
                is_file,
                id,
                before,
                after,
            } && (is_symlink || !is_file || before == Some(id) || after == Some(id))),
            RenderEventView::Ran(run) => !(run matches Some(run)
                && run matches renderer::RendererRunView::Succeeded {
                summary: Some(_),
                video: Some(facts),
                ..
            }
                && facts.is_file && facts.bytes > 0),
        },
        render_step(state, event).1 is Refuse ==> render_step(state, event).0 is Finished,
{
    if let RenderEventView::Examined(probe) = event {
        selection::image_accepted(probe);
    }
    if let RenderEventView::Saved(picking::PickOutcomeView::Local(asked)) = event {
        output::plan_is_refused_for_its_extension(asked);
        if path::names(asked).len() == 0 {
            output::nameless_plan_stays(asked);
        }
    }
}

/// Whatever ends a job gives the flag back exactly where the job had acquired it.
pub proof fn job_gives_back_what_it_acquired(state: RenderStateView, event: RenderEventView)
    requires
        render_awaits(state, event),
    ensures
        render_step(state, event).1 matches RenderActionView::Refuse { release, .. } ==> release
            == !(state is Ready || state is Acquiring),
        render_step(state, event).1 matches RenderActionView::Cancel { release } ==> release,
        render_step(state, event).1 matches RenderActionView::Complete { release, .. } ==> release,
        render_step(state, event).0 is Finished <==> (render_step(state, event).1 is Refuse
            || render_step(state, event).1 is Cancel || render_step(state, event).1 is Complete),
        releases(render_step(state, event).1) <==> render_step(state, event).0 is Finished && !(
        state is Ready || state is Acquiring),
        holds_flag(state) <==> !(state is Ready || state is Acquiring),
{
}

/// A job that is refused before anything is rendered is answered with the reason.
pub proof fn refused_job_says_why(
    origin: RenderOrigin,
    before: Seq<u8>,
    after: Seq<u8>,
    images: selection::SelectedImagesView,
    probe: selection::ImageProbeView,
    asked: Seq<u8>,
)
    ensures
        !origin::is_origin_in_frame(origin) ==> render_step(
            RenderStateView::Ready,
            RenderEventView::Requested(origin),
        ).1 == (RenderActionView::Refuse {
            release: false,
            message: "Choose a ripple origin inside the frame."@,
        }),
        render_step(
            RenderStateView::Acquiring { origin },
            RenderEventView::FlagTried { acquired: false },
        ).1 == (RenderActionView::Refuse {
            release: false,
            message: "A ripple video is already rendering."@,
        }),
        render_step(
            RenderStateView::Collecting { origin },
            RenderEventView::Collected(None),
        ).1 == (RenderActionView::Refuse {
            release: true,
            message: "The image selection state is unavailable."@,
        }),
        images.before is None ==> render_step(
            RenderStateView::Collecting { origin },
            RenderEventView::Collected(Some(images)),
        ).1 == (RenderActionView::Refuse {
            release: true,
            message: "Choose a before image first."@,
        }),
        images.before is Some && images.after is None ==> render_step(
            RenderStateView::Collecting { origin },
            RenderEventView::Collected(Some(images)),
        ).1 == (RenderActionView::Refuse {
            release: true,
            message: "Choose an after image first."@,
        }),
        selection::image_verdict(probe) matches Err(message) ==> render_step(
            RenderStateView::CheckingBefore { origin, after },
            RenderEventView::Examined(probe),
        ).1 == (RenderActionView::Refuse { release: true, message }) && render_step(
            RenderStateView::CheckingAfter { origin, before },
            RenderEventView::Examined(probe),
        ).1 == (RenderActionView::Refuse { release: true, message }),
        render_step(
            RenderStateView::Saving { origin, before, after },
            RenderEventView::Saved(picking::PickOutcomeView::Failed),
        ).1 == (RenderActionView::Refuse {
            release: true,
            message: "The save dialog could not be opened."@,
        }),
        render_step(
            RenderStateView::Saving { origin, before, after },
            RenderEventView::Saved(picking::PickOutcomeView::NotLocal),
        ).1 == (RenderActionView::Refuse {
            release: true,
            message: "Choose a local folder for the MP4."@,
        }),
        output::output_plan(asked) matches Err(message) ==> render_step(
            RenderStateView::Saving { origin, before, after },
            RenderEventView::Saved(picking::PickOutcomeView::Local(asked)),
        ).1 == (RenderActionView::Refuse { release: true, message }),
{
}

/// A job that is refused at the place of the video, or whose renderer made none, is answered with
/// the reason.
pub proof fn failed_job_says_why(
    origin: RenderOrigin,
    before: Seq<u8>,
    after: Seq<u8>,
    output: Seq<u8>,
    plan: output::OutputPlanView,
    folder: Option<Seq<u8>>,
    occupant: Occupant,
    run: renderer::RendererRunView,
)
    ensures
        output::output_place(plan, folder, before, after) matches Err(message) ==> render_step(
            RenderStateView::Placing { origin, before, after, plan },
            RenderEventView::FolderResolved(folder),
        ).1 == (RenderActionView::Refuse { release: true, message }),
        output::occupant_objection(occupant) matches Some(message) ==> render_step(
            RenderStateView::Probing { origin, before, after, output },
            RenderEventView::Probed(occupant),
        ).1 == (RenderActionView::Refuse { release: true, message }),
        render_step(
            RenderStateView::Running { origin, before, after, output },
            RenderEventView::Ran(None),
        ).1 == (RenderActionView::Refuse {
            release: true,
            message: "The Metal renderer stopped unexpectedly."@,
        }),
        renderer::run_verdict(before, after, output, run) matches Err(message) ==> render_step(
            RenderStateView::Running { origin, before, after, output },
            RenderEventView::Ran(Some(run)),
        ).1 == (RenderActionView::Refuse { release: true, message }),
{
}

/// A job keeps the origin that it was asked for, tries for the flag, reads the chosen images, and
/// has the two of them examined, the one before first. It goes on with the paths that were found.
pub proof fn job_gathers_its_images(
    origin: RenderOrigin,
    chosen_before: selection::SelectedImageView,
    chosen_after: selection::SelectedImageView,
    before: Seq<u8>,
    after: Seq<u8>,
    found: Seq<u8>,
    bytes: u64,
)
    ensures
        origin::is_origin_in_frame(origin) ==> render_step(
            RenderStateView::Ready,
            RenderEventView::Requested(origin),
        ) == (RenderStateView::Acquiring { origin }, RenderActionView::AcquireFlag),
        render_step(
            RenderStateView::Acquiring { origin },
            RenderEventView::FlagTried { acquired: true },
        ) == (RenderStateView::Collecting { origin }, RenderActionView::ReadSelection),
        render_step(
            RenderStateView::Collecting { origin },
            RenderEventView::Collected(
                Some(
                    selection::SelectedImagesView {
                        before: Some(chosen_before),
                        after: Some(chosen_after),
                    },
                ),
            ),
        ) == (
            RenderStateView::CheckingBefore { origin, after: chosen_after.path },
            RenderActionView::ExamineImage { path: chosen_before.path },
        ),
        0 < bytes <= 104857600 && selection::is_image_path(found) && selection::file_name_text(
            found,
        ) is Some ==> ({
            let probe = selection::ImageProbeView::Found { path: found, is_file: true, bytes };
            let first = render_step(
                RenderStateView::CheckingBefore { origin, after },
                RenderEventView::Examined(probe),
            );
            let second = render_step(
                RenderStateView::CheckingAfter { origin, before },
                RenderEventView::Examined(probe),
            );
            &&& first == (
                RenderStateView::CheckingAfter { origin, before: found },
                RenderActionView::ExamineImage { path: after },
            )
            &&& second.0 == (RenderStateView::Saving { origin, before, after: found })
            &&& second.1 matches RenderActionView::OpenSaveDialog { prompt } && prompt.title
                == "Save ripple video"@ && prompt.file_name == Some("ripple-transition.mp4"@)
                && prompt.filter == "MPEG-4 video"@ && prompt.extensions == seq!["mp4"@]
        }),
{
    selection::image_accepted(
        selection::ImageProbeView::Found { path: found, is_file: true, bytes },
    );
    selection::image_is_what_was_found(found, true, bytes);
}

/// A job goes on with the path that was picked: it has the folder of that path resolved, which
/// holds all names of the path but the last; what stands in the folder that was found, under the
/// name of the plan, is looked at; and the renderer is run from the origin, on the two images, into
/// that place.
pub proof fn job_finds_its_place(
    origin: RenderOrigin,
    before: Seq<u8>,
    after: Seq<u8>,
    asked: Seq<u8>,
    plan: output::OutputPlanView,
    folder: Seq<u8>,
    output: Seq<u8>,
    occupant: Occupant,
)
    ensures
        path::names(asked).len() > 0 && !(path::extension(asked) matches Some(ending)
            && valid_utf8(ending) && !text::spells(ending, "mp4"@)) ==> ({
            let step = render_step(
                RenderStateView::Saving { origin, before, after },
                RenderEventView::Saved(picking::PickOutcomeView::Local(asked)),
            );
            &&& step.0 matches RenderStateView::Placing {
                origin: kept,
                before: first,
                after: second,
                plan,
            } && kept == origin && first == before && second == after && step.1 == (
            RenderActionView::ResolveFolder { folder: plan.folder }) && path::names(plan.folder)
                == path::names(asked).drop_last() && plan.folder == asked.take(
                plan.folder.len() as int,
            ) && path::names(plan.path).drop_last() == path::names(asked).drop_last()
        }),
        path::file_name(plan.path) matches Some(name) ==> !path::same_path(
            path::joined(folder, name),
            before,
        ) && !path::same_path(path::joined(folder, name), after) ==> ({
            let step = render_step(
                RenderStateView::Placing { origin, before, after, plan },
                RenderEventView::FolderResolved(Some(folder)),
            );
            &&& step.0 matches RenderStateView::Probing {
                origin: kept,
                before: first,
                after: second,
                output,
            } && kept == origin && first == before && second == after && step.1 == (
            RenderActionView::ProbeOutput { before, after, output }) && path::names(output)
                == path::names(folder).push(name) && path::is_rooted(output) == path::is_rooted(
                folder,
            )
        }),
        !(occupant matches Occupant::Present { is_symlink, is_file, id, before, after } && (
        is_symlink || !is_file || before == Some(id) || after == Some(id))) ==> render_step(
            RenderStateView::Probing { origin, before, after, output },
            RenderEventView::Probed(occupant),
        ) == (
            RenderStateView::Running { origin, before, after, output },
            RenderActionView::RunRenderer { origin, before, after, output },
        ),
{
    output::plan_is_refused_for_its_extension(asked);
    if path::names(asked).len() > 0 {
        output::plan_keeps_the_folder(asked);
    }
    output::place_is_the_folder_and_the_name(plan, folder, before, after);
}

/// Whatever happens outside, the video that the renderer is run into stands in the folder that was
/// found for the path that was picked, and the folder that was asked about is that of this path.
pub proof fn renderer_writes_where_asked(
    events: Seq<RenderEventView>,
    origin: RenderOrigin,
    before: Seq<u8>,
    after: Seq<u8>,
    output: Seq<u8>,
)
    requires
        are_awaited(events),
        events.len() > 0,
        render_step(after_events(events.drop_last()).0, events.last()).1 == (
        RenderActionView::RunRenderer { origin, before, after, output }),
    ensures
        events.len() == 8,
        events[5] matches RenderEventView::Saved(picking::PickOutcomeView::Local(asked))
            && events[6] matches RenderEventView::FolderResolved(Some(folder)) && path::file_name(
            asked,
        ) matches Some(name) && path::names(output) == path::names(folder).push(
            if output::is_video_path(asked) {
                name
            } else {
                path::stem(name) + seq![0x2eu8, 0x6du8, 0x70u8, 0x34u8]
            },
        ) && path::is_rooted(output) == path::is_rooted(folder) && (action_at(
            events,
            5,
        ) matches RenderActionView::ResolveFolder { folder: asked_about } && path::names(asked_about)
            == path::names(asked).drop_last()),
{
    renderer_runs_on_what_was_checked(events, origin, before, after, output);
    lemma_examinations(events, origin, before, after);
    if let RenderEventView::Saved(picking::PickOutcomeView::Local(asked)) = events[5] {
        if let RenderEventView::FolderResolved(folder) = events[6] {
            if let RenderEventView::Probed(occupant) = events[7] {
                output::video_is_written_under_the_name_asked_for(
                    asked,
                    before,
                    after,
                    folder,
                    occupant,
                );
            }
        }
        output::plan_keeps_the_folder(asked);
    }
}

/// A job waits for one kind of event in each state, and for nothing once it has ended.
pub proof fn job_waits_in_order(state: RenderStateView, event: RenderEventView)
    ensures
        render_awaits(state, event) <==> match event {
            RenderEventView::Requested(_) => state is Ready,
            RenderEventView::FlagTried { .. } => state is Acquiring,
            RenderEventView::Collected(_) => state is Collecting,
            RenderEventView::Examined(_) => state is CheckingBefore || state is CheckingAfter,
            RenderEventView::Saved(_) => state is Saving,
            RenderEventView::FolderResolved(_) => state is Placing,
            RenderEventView::Probed(_) => state is Probing,
            RenderEventView::Ran(_) => state is Running,
        },
{
}

/// States are seen field by field.
pub proof fn states_are_seen_by_field(
    origin: RenderOrigin,
    before: FilePath,
    after: FilePath,
    plan: OutputPlan,
    output: FilePath,
)
    ensures
        RenderState::Ready@ == RenderStateView::Ready,
        (RenderState::Acquiring { origin })@ == (RenderStateView::Acquiring { origin }),
        (RenderState::Collecting { origin })@ == (RenderStateView::Collecting { origin }),
        (RenderState::CheckingBefore { origin, after })@ == (RenderStateView::CheckingBefore {
            origin,
            after: after@,
        }),
        (RenderState::CheckingAfter { origin, before })@ == (RenderStateView::CheckingAfter {
            origin,
            before: before@,
        }),
        (RenderState::Saving { origin, before, after })@ == (RenderStateView::Saving {
            origin,
            before: before@,
            after: after@,
        }),
        (RenderState::Placing { origin, before, after, plan })@ == (RenderStateView::Placing {
            origin,
            before: before@,
            after: after@,
            plan: plan@,
        }),
        (RenderState::Probing { origin, before, after, output })@ == (RenderStateView::Probing {
            origin,
            before: before@,
            after: after@,
            output: output@,
        }),
        (RenderState::Running { origin, before, after, output })@ == (RenderStateView::Running {
            origin,
            before: before@,
            after: after@,
            output: output@,
        }),
        RenderState::Finished@ == RenderStateView::Finished,
{
}

/// Events are seen for what they are.
pub proof fn events_are_seen_by_field(
    origin: RenderOrigin,
    acquired: bool,
    images: Option<SelectedImages>,
    probe: ImageProbe,
    outcome: PickOutcome,
    folder: Option<FilePath>,
    occupant: Occupant,
    run: Option<RendererRun>,
)
    ensures
        RenderEvent::Requested(origin)@ == RenderEventView::Requested(origin),
        (RenderEvent::FlagTried { acquired })@ == (RenderEventView::FlagTried { acquired }),
        RenderEvent::Collected(images)@ == RenderEventView::Collected(text::option_view(images)),
        RenderEvent::Examined(probe)@ == RenderEventView::Examined(probe@),
        RenderEvent::Saved(outcome)@ == RenderEventView::Saved(outcome@),
        RenderEvent::FolderResolved(folder)@ == RenderEventView::FolderResolved(
            text::option_view(folder),
        ),
        RenderEvent::Probed(occupant)@ == RenderEventView::Probed(occupant),
        RenderEvent::Ran(run)@ == RenderEventView::Ran(text::option_view(run)),
{
}

/// Actions are seen field by field.
pub proof fn actions_are_seen_by_field(
    origin: RenderOrigin,
    before: FilePath,
    after: FilePath,
    output: FilePath,
    prompt: DialogPrompt,
    release: bool,
    message: String,
    result: RenderResult,
)
    ensures
        RenderAction::AcquireFlag@ == RenderActionView::AcquireFlag,
        RenderAction::ReadSelection@ == RenderActionView::ReadSelection,
        (RenderAction::ExamineImage { path: before })@ == (RenderActionView::ExamineImage {
            path: before@,
        }),
        (RenderAction::OpenSaveDialog { prompt })@ == (RenderActionView::OpenSaveDialog {
            prompt: prompt@,
        }),
        (RenderAction::ResolveFolder { folder: output })@ == (RenderActionView::ResolveFolder {
            folder: output@,
        }),
        (RenderAction::ProbeOutput { before, after, output })@ == (RenderActionView::ProbeOutput {
            before: before@,
            after: after@,
            output: output@,
        }),
        (RenderAction::RunRenderer { origin, before, after, output })@ == (
        RenderActionView::RunRenderer {
            origin,
            before: before@,
            after: after@,
            output: output@,
        }),
        (RenderAction::Cancel { release })@ == (RenderActionView::Cancel { release }),
        (RenderAction::Refuse { release, message })@ == (RenderActionView::Refuse {
            release,
            message: message@,
        }),
        (RenderAction::Complete { release, result })@ == (RenderActionView::Complete {
            release,
            result: result@,
        }),
{
}

} // verus!
