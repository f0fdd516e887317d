use ripple::path::FilePath;
use ripple::renderer::{
    default_video_name, locate_renderer, renderer_arguments, run_renderer, FileFacts,
    NativeRenderSummary, RenderResult, RendererRun, OWNER_ONLY,
};

fn run(run: RendererRun) -> Result<RenderResult, String> {
    run_renderer(
        &FilePath::from_text("/in/before.png"),
        &FilePath::from_text("/in/after.png"),
        &FilePath::from_text("/out/ripple.mp4"),
        run,
    )
}

fn summary() -> Option<NativeRenderSummary> {
    Some(NativeRenderSummary {
        width: 1920,
        height: 1080,
        frames: 180,
        duration_seconds_bits: 3.0f64.to_bits(),
        frames_per_second: 60,
    })
}

fn succeeded(
    summary: Option<NativeRenderSummary>,
    video: Option<FileFacts>,
) -> Result<RenderResult, String> {
    run(RendererRun::Succeeded {
        summary,
        video,
        milliseconds: 1500,
    })
}

fn file(is_file: bool, bytes: u64) -> Option<FileFacts> {
    Some(FileFacts { is_file, bytes })
}

#[test]
fn a_finished_video_is_described() {
    let result = succeeded(summary(), file(true, 4096)).unwrap();
    assert_eq!(result.output_file_name, "ripple.mp4");
    assert_eq!(result.output_bytes, 4096);
    assert_eq!((result.width, result.height, result.frames), (1920, 1080, 180));
    assert_eq!(f64::from_bits(result.duration_seconds_bits), 3.0);
    assert_eq!(result.frames_per_second, 60);
    assert_eq!(result.render_milliseconds, 1500);
}

#[test]
fn a_name_that_is_not_text_is_replaced_by_the_default() {
    let result = run_renderer(
        &FilePath::from_text("/b"),
        &FilePath::from_text("/a"),
        &FilePath {
            bytes: vec![b'/', 0xff, b'.', b'm', b'p', b'4'],
        },
        RendererRun::Succeeded {
            summary: summary(),
            video: file(true, 1),
            milliseconds: 0,
        },
    )
    .unwrap();
    assert_eq!(result.output_file_name, "ripple-transition.mp4");
    assert_eq!(default_video_name(), "ripple-transition.mp4");
}

#[test]
fn failed_runs_are_explained() {
    assert_eq!(
        run(RendererRun::NotPrepared).unwrap_err(),
        "The Metal renderer could not be prepared."
    );
    assert_eq!(
        run(RendererRun::NotStarted).unwrap_err(),
        "The bundled Metal renderer could not start."
    );
    assert_eq!(
        run(RendererRun::Failed {
            stderr: b"bad /in/after.png for /out/ripple.mp4\n".to_vec()
        })
        .unwrap_err(),
        "bad selected file for selected file"
    );
    assert_eq!(
        run(RendererRun::Failed { stderr: Vec::new() }).unwrap_err(),
        "The ripple video could not be rendered."
    );
    assert_eq!(
        succeeded(None, file(true, 1)).unwrap_err(),
        "The Metal renderer returned an invalid result."
    );
}

#[test]
fn a_run_without_a_video_is_no_success() {
    for video in [None, file(true, 0), file(false, 10)] {
        assert_eq!(
            succeeded(summary(), video).unwrap_err(),
            "The renderer finished without producing an MP4."
        );
    }
}

#[test]
fn arguments_stand_in_fixed_positions() {
    let arguments = renderer_arguments(
        &FilePath::from_text("/in/before.png"),
        &FilePath::from_text("/in/after.png"),
        &FilePath::from_text("/out/ripple.mp4"),
        "0.5",
        "1",
    );
    let expected: Vec<Vec<u8>> = vec![
        b"/in/before.png".to_vec(),
        b"/in/after.png".to_vec(),
        b"/out/ripple.mp4".to_vec(),
        b"0.5".to_vec(),
        b"1".to_vec(),
    ];
    assert_eq!(arguments, expected);
}

#[test]
fn every_process_has_a_renderer_of_its_own() {
    let temporary = FilePath::from_text("/tmp/");
    let location = locate_renderer(&temporary, "0.1.0", 4021);
    assert_eq!(location.directory.bytes, b"/tmp/ripple-renderer-0.1.0".to_vec());
    assert_eq!(
        location.executable.bytes,
        b"/tmp/ripple-renderer-0.1.0/renderer-4021".to_vec()
    );
    let other = locate_renderer(&temporary, "0.1.0", 402);
    assert!(!other.executable.is_same(&location.executable));
    assert!(other.directory.is_same(&location.directory));
    assert_eq!(OWNER_ONLY, 448);
}
