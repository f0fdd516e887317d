use ripple::dialog::{image_prompt, video_prompt};
use ripple::origin::RenderOrigin;
use ripple::output::{FileId, Occupant};
use ripple::path::FilePath;
use ripple::picking::{
    choose_accepts, choose_image, ChooseAction, ChooseEvent, ChooseState, ChooseStep,
    PickOutcome,
};
use ripple::renderer::{FileFacts, NativeRenderSummary, RendererRun};
use ripple::rendering::{
    render_accepts, render_ripple_video, RenderAction, RenderEvent, RenderState, RenderStep,
};
use ripple::selection::{ImageProbe, ImageSlot, SelectedImage, SelectedImages};

fn path(text: &str) -> FilePath {
    FilePath::from_text(text)
}

fn found(text: &str) -> ImageProbe {
    ImageProbe::Found {
        path: path(text),
        is_file: true,
        bytes: 9,
    }
}

fn take_step(state: ChooseState, event: ChooseEvent) -> ChooseStep {
    assert!(choose_accepts(&state, &event));
    choose_image(state, event)
}

fn choose_refused(state: ChooseState, event: ChooseEvent) -> String {
    let step = take_step(state, event);
    assert_eq!(step.state, ChooseState::Finished);
    match step.action {
        ChooseAction::Refuse { message } => message,
        other => panic!("{:?}", other),
    }
}

#[test]
fn a_picked_image_is_examined_and_stored() {
    let slot = ImageSlot::After;
    let step = take_step(ChooseState::Ready { slot }, ChooseEvent::Begun { rendering: false });
    match step.action {
        ChooseAction::OpenPicker { prompt } => assert_eq!(prompt.title, "Choose the after image"),
        other => panic!("{:?}", other),
    }
    let step = take_step(step.state, ChooseEvent::Picked(PickOutcome::Local(path("/l/a.png"))));
    match step.action {
        ChooseAction::ExamineImage { path } => assert_eq!(path.bytes, b"/l/a.png".to_vec()),
        other => panic!("{:?}", other),
    }
    let step = take_step(step.state, ChooseEvent::Examined(found("/real/a.png")));
    assert_eq!(step.state, ChooseState::Finished);
    match step.action {
        ChooseAction::Store { slot, image } => {
            assert_eq!(slot, ImageSlot::After);
            assert_eq!(image.path.bytes, b"/real/a.png".to_vec());
            assert_eq!((image.file_name.as_str(), image.bytes), ("a.png", 9));
        }
        other => panic!("{:?}", other),
    }
}

#[test]
fn a_choice_can_be_refused_or_cancelled() {
    let slot = ImageSlot::Before;
    assert_eq!(
        choose_refused(ChooseState::Ready { slot }, ChooseEvent::Begun { rendering: true }),
        "Wait for the current video to finish before changing images."
    );
    let picking = ChooseState::Picking { slot };
    assert_eq!(
        choose_refused(picking, ChooseEvent::Picked(PickOutcome::Failed)),
        "The image picker could not be opened."
    );
    assert_eq!(
        choose_refused(picking, ChooseEvent::Picked(PickOutcome::NotLocal)),
        "The selected item is not a local image file."
    );
    let step = take_step(picking, ChooseEvent::Picked(PickOutcome::Cancelled));
    assert_eq!(step.state, ChooseState::Finished);
    assert!(matches!(step.action, ChooseAction::Cancel));
    assert_eq!(
        choose_refused(
            ChooseState::Examining { slot },
            ChooseEvent::Examined(ImageProbe::Unavailable)
        ),
        "The selected image is no longer available."
    );
}

#[test]
fn a_choice_waits_for_one_kind_of_event() {
    let slot = ImageSlot::Before;
    let begun = ChooseEvent::Begun { rendering: false };
    assert!(choose_accepts(&ChooseState::Ready { slot }, &begun));
    assert!(!choose_accepts(&ChooseState::Picking { slot }, &begun));
    assert!(!choose_accepts(&ChooseState::Finished, &begun));
}

#[test]
fn dialogs_for_images_show_the_slot_and_the_extensions() {
    let prompt = image_prompt(ImageSlot::Before);
    assert_eq!(prompt.title, "Choose the before image");
    assert_eq!(prompt.file_name, None);
    assert_eq!(prompt.filter, "Images");
    assert_eq!(
        prompt.extensions,
        vec!["png", "jpg", "jpeg", "heic", "heif", "tif", "tiff"]
    );
    assert_eq!(image_prompt(ImageSlot::After).title, "Choose the after image");
}

#[test]
fn the_dialog_for_a_video_proposes_a_name() {
    let prompt = video_prompt();
    assert_eq!(prompt.title, "Save ripple video");
    assert_eq!(prompt.file_name, Some("ripple-transition.mp4"));
    assert_eq!(prompt.filter, "MPEG-4 video");
    assert_eq!(prompt.extensions, vec!["mp4"]);
}

fn center() -> RenderOrigin {
    RenderOrigin {
        x_bits: 0.5f64.to_bits(),
        y_bits: 0.5f64.to_bits(),
    }
}

fn render(state: RenderState, event: RenderEvent) -> RenderStep {
    assert!(render_accepts(&state, &event));
    render_ripple_video(state, event)
}

fn refused(state: RenderState, event: RenderEvent) -> (bool, String) {
    let step = render(state, event);
    assert!(matches!(step.state, RenderState::Finished));
    match step.action {
        RenderAction::Refuse { release, message } => (release, message),
        other => panic!("{:?}", other),
    }
}

fn selected(text: &str) -> Option<SelectedImage> {
    Some(SelectedImage {
        path: path(text),
        file_name: "x".to_owned(),
        bytes: 1,
    })
}

fn collecting() -> RenderState {
    render(
        render(RenderState::Ready, RenderEvent::Requested(center())).state,
        RenderEvent::FlagTried { acquired: true },
    )
    .state
}

fn checking_before() -> RenderState {
    render(
        collecting(),
        RenderEvent::Collected(Some(SelectedImages {
            before: selected("/in/before.png"),
            after: selected("/in/after.png"),
        })),
    )
    .state
}

fn checking_after() -> RenderState {
    render(checking_before(), RenderEvent::Examined(found("/real/before.png"))).state
}

fn saving() -> RenderState {
    render(checking_after(), RenderEvent::Examined(found("/real/after.png"))).state
}

fn placing() -> RenderState {
    render(saving(), RenderEvent::Saved(PickOutcome::Local(path("/link/clip")))).state
}

fn probing() -> RenderState {
    render(placing(), RenderEvent::FolderResolved(Some(path("/out")))).state
}

fn running() -> RenderState {
    render(probing(), RenderEvent::Probed(Occupant::Vacant)).state
}

#[test]
fn a_video_is_rendered_step_by_step() {
    let step = render(RenderState::Ready, RenderEvent::Requested(center()));
    assert!(matches!(step.action, RenderAction::AcquireFlag));
    let step = render(step.state, RenderEvent::FlagTried { acquired: true });
    assert!(matches!(step.action, RenderAction::ReadSelection));
    let step = render(
        step.state,
        RenderEvent::Collected(Some(SelectedImages {
            before: selected("/in/before.png"),
            after: selected("/in/after.png"),
        })),
    );
    match step.action {
        RenderAction::ExamineImage { path } => assert_eq!(path.bytes, b"/in/before.png".to_vec()),
        other => panic!("{:?}", other),
    }
    let step = render(step.state, RenderEvent::Examined(found("/real/before.png")));
    match step.action {
        RenderAction::ExamineImage { path } => assert_eq!(path.bytes, b"/in/after.png".to_vec()),
        other => panic!("{:?}", other),
    }
    let step = render(step.state, RenderEvent::Examined(found("/real/after.png")));
    match step.action {
        RenderAction::OpenSaveDialog { prompt } => assert_eq!(prompt.title, "Save ripple video"),
        other => panic!("{:?}", other),
    }
    let step = render(
        step.state,
        RenderEvent::Saved(PickOutcome::Local(path("/link/clip"))),
    );
    match step.action {
        RenderAction::ResolveFolder { folder } => assert_eq!(folder.bytes, b"/link".to_vec()),
        other => panic!("{:?}", other),
    }
    let step = render(step.state, RenderEvent::FolderResolved(Some(path("/out"))));
    match step.action {
        RenderAction::ProbeOutput {
            before,
            after,
            output,
        } => {
            assert_eq!(before.bytes, b"/real/before.png".to_vec());
            assert_eq!(after.bytes, b"/real/after.png".to_vec());
            assert_eq!(output.bytes, b"/out/clip.mp4".to_vec());
        }
        other => panic!("{:?}", other),
    }
    let step = render(step.state, RenderEvent::Probed(Occupant::Vacant));
    match step.action {
        RenderAction::RunRenderer {
            origin,
            before,
            after,
            output,
        } => {
            assert_eq!(origin, center());
            assert_eq!(before.bytes, b"/real/before.png".to_vec());
            assert_eq!(after.bytes, b"/real/after.png".to_vec());
            assert_eq!(output.bytes, b"/out/clip.mp4".to_vec());
        }
        other => panic!("{:?}", other),
    }
    let step = render(
        step.state,
        RenderEvent::Ran(Some(RendererRun::Succeeded {
            summary: Some(NativeRenderSummary {
                width: 10,
                height: 20,
                frames: 180,
                duration_seconds_bits: 3.0f64.to_bits(),
                frames_per_second: 60,
            }),
            video: Some(FileFacts {
                is_file: true,
                bytes: 77,
            }),
            milliseconds: 12,
        })),
    );
    assert!(matches!(step.state, RenderState::Finished));
    match step.action {
        RenderAction::Complete { release, result } => {
            assert!(release);
            assert_eq!(result.output_file_name, "clip.mp4");
            assert_eq!(result.output_bytes, 77);
        }
        other => panic!("{:?}", other),
    }
}

#[test]
fn a_job_without_the_flag_does_not_release_it() {
    let outside = RenderOrigin {
        x_bits: 1.5f64.to_bits(),
        y_bits: 0,
    };
    assert_eq!(
        refused(RenderState::Ready, RenderEvent::Requested(outside)),
        (false, "Choose a ripple origin inside the frame.".to_owned())
    );
    let acquiring = render(RenderState::Ready, RenderEvent::Requested(center())).state;
    assert_eq!(
        refused(acquiring, RenderEvent::FlagTried { acquired: false }),
        (false, "A ripple video is already rendering.".to_owned())
    );
}

#[test]
fn a_job_with_the_flag_releases_it_whatever_goes_wrong() {
    let wrong = |state: RenderState, event: RenderEvent, message: &str| {
        assert_eq!(refused(state, event), (true, message.to_owned()));
    };
    let images = |before: Option<SelectedImage>, after: Option<SelectedImage>| {
        RenderEvent::Collected(Some(SelectedImages { before, after }))
    };
    wrong(
        collecting(),
        RenderEvent::Collected(None),
        "The image selection state is unavailable.",
    );
    wrong(collecting(), images(None, None), "Choose a before image first.");
    wrong(collecting(), images(None, selected("/a.png")), "Choose a before image first.");
    wrong(collecting(), images(selected("/a.png"), None), "Choose an after image first.");
    wrong(
        checking_before(),
        RenderEvent::Examined(ImageProbe::Unavailable),
        "The selected image is no longer available.",
    );
    wrong(
        checking_after(),
        RenderEvent::Examined(ImageProbe::Uninspectable),
        "The selected image could not be inspected.",
    );
    wrong(
        saving(),
        RenderEvent::Saved(PickOutcome::Failed),
        "The save dialog could not be opened.",
    );
    wrong(
        saving(),
        RenderEvent::Saved(PickOutcome::NotLocal),
        "Choose a local folder for the MP4.",
    );
    wrong(
        saving(),
        RenderEvent::Saved(PickOutcome::Local(path("/a.mov"))),
        "Save the video with an .mp4 extension.",
    );
    wrong(
        placing(),
        RenderEvent::FolderResolved(None),
        "The selected output folder is unavailable.",
    );
    let id = FileId { device: 3, inode: 4 };
    wrong(
        probing(),
        RenderEvent::Probed(Occupant::Present {
            is_symlink: false,
            is_file: true,
            id,
            before: None,
            after: Some(id),
        }),
        "The MP4 cannot replace one of the source images.",
    );
    wrong(
        running(),
        RenderEvent::Ran(None),
        "The Metal renderer stopped unexpectedly.",
    );
    wrong(
        running(),
        RenderEvent::Ran(Some(RendererRun::Failed {
            stderr: b"/real/before.png is broken".to_vec(),
        })),
        "selected file is broken",
    );
}

#[test]
fn a_cancelled_dialog_ends_the_job_without_a_video() {
    let step = render(saving(), RenderEvent::Saved(PickOutcome::Cancelled));
    assert!(matches!(step.state, RenderState::Finished));
    assert!(matches!(step.action, RenderAction::Cancel { release: true }));
}

#[test]
fn a_job_waits_for_one_kind_of_event() {
    assert!(!render_accepts(&RenderState::Ready, &RenderEvent::Ran(None)));
    assert!(!render_accepts(&RenderState::Finished, &RenderEvent::Ran(None)));
    assert!(!render_accepts(&saving(), &RenderEvent::Requested(center())));
    assert!(render_accepts(&running(), &RenderEvent::Ran(None)));
}

#[test]
fn one_of_two_jobs_gets_the_flag() {
    let first = render(RenderState::Ready, RenderEvent::Requested(center())).state;
    let second = render(RenderState::Ready, RenderEvent::Requested(center())).state;
    let mut set = false;
    let first = render(first, RenderEvent::FlagTried { acquired: !set });
    set = true;
    assert!(matches!(first.action, RenderAction::ReadSelection));
    assert_eq!(
        refused(second, RenderEvent::FlagTried { acquired: !set }),
        (false, "A ripple video is already rendering.".to_owned())
    );
    assert_eq!(
        choose_refused(
            ChooseState::Ready {
                slot: ImageSlot::Before
            },
            ChooseEvent::Begun { rendering: set }
        ),
        "Wait for the current video to finish before changing images."
    );
    let (release, _) = refused(first.state, RenderEvent::Collected(None));
    assert!(release);
    set = false;
    let third = render(RenderState::Ready, RenderEvent::Requested(center())).state;
    let third = render(third, RenderEvent::FlagTried { acquired: !set });
    assert!(matches!(third.action, RenderAction::ReadSelection));
}

#[test]
fn a_renderer_that_fails_with_white_space_is_reported_by_the_fallback() {
    assert_eq!(
        refused(
            running(),
            RenderEvent::Ran(Some(RendererRun::Failed {
                stderr: b" \n".to_vec(),
            }))
        ),
        (true, "The ripple video could not be rendered.".to_owned())
    );
}
