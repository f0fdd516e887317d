//! The run of the native renderer: where its program is put, what it is given, and what comes of
//! it.
use crate::path;
use crate::path::FilePath;
use crate::report;
use crate::selection;
use crate::text;
use vstd::prelude::*;
use vstd::utf8::*;

verus! {

/// Who may use the program of the renderer and its directory: the owner, in every way.
pub const OWNER_ONLY: u32 = 0o700;

/// The file name of a video where no other is known.
pub open spec fn default_file_name() -> Seq<char> {
    "ripple-transition.mp4"@
}

/// The file name that is proposed for a video.
pub fn default_video_name() -> (name: &'static str)
    ensures
        name@ == default_file_name(),
{
    "ripple-transition.mp4"
}

/// Where the program of the renderer is put: a directory and a file in it.
#[derive(Debug)]
pub struct RendererLocation {
    pub directory: FilePath,
    pub executable: FilePath,
}

/// The directory for the programs of the renderer of one version.
pub open spec fn renderer_directory(temporary: Seq<u8>, version: Seq<char>) -> Seq<u8> {
    path::joined(temporary, encode_utf8("ripple-renderer-"@) + encode_utf8(version))
}

/// The file name of the program that the process with the number `process` puts there.
pub open spec fn renderer_file_name(process: u32) -> Seq<u8> {
    encode_utf8("renderer-"@) + text::decimal(process as nat)
}

/// Says where the process with the number `process` puts the program of the renderer.
pub fn locate_renderer(temporary: &FilePath, version: &str, process: u32) -> (location:
    RendererLocation)
    ensures
        location.directory@ == renderer_directory(temporary@, version@),
        location.executable@ == path::joined(location.directory@, renderer_file_name(process)),
{
    let mut directory_name = FilePath::from_text("ripple-renderer-");
    let mut version_bytes = vstd::slice::slice_to_vec(version.as_bytes());
    directory_name.bytes.append(&mut version_bytes);
    let directory = temporary.join(&directory_name);
    let mut file_name = FilePath::from_text("renderer-");
    let mut digits = text::decimal_digits(process);
    file_name.bytes.append(&mut digits);
    let executable = directory.join(&file_name);
    RendererLocation { directory, executable }
}

/// The decimal digits are digits.
proof fn lemma_digits(n: nat)
    ensures
        forall|i: int| 0 <= i < text::decimal(n).len() ==> 0x30 <= #[trigger] text::decimal(n)[i]
            <= 0x39,
        text::decimal(n).len() > 0,
    decreases n,
{
    if n >= 10 {
        lemma_digits(n / 10);
    }
}

proof fn lemma_renderer_file_name(process: u32)
    ensures
        path::is_file_name(renderer_file_name(process)),
{
    let prefix = encode_utf8("renderer-"@);
    let name = renderer_file_name(process);
    reveal_strlit("renderer-");
    assert(is_ascii_chars("renderer-"@));
    is_ascii_chars_encode_utf8("renderer-"@);
    lemma_digits(process as nat);
    assert(prefix.len() == 9);
    assert(seq![path::DOT].len() == 1 && seq![path::DOT, path::DOT].len() == 2);
    assert forall|i: int| 0 <= i < name.len() implies name[i] != path::SEPARATOR by {
        if i < prefix.len() {
            assert(name[i] == "renderer-"@[i] as u8);
        } else {
            assert(name[i] == text::decimal(process as nat)[i - prefix.len()]);
        }
    }
}

/// Two processes never put the program of the renderer at the same path.
pub proof fn processes_do_not_share_renderers(directory: Seq<u8>, first: u32, second: u32)
    requires
        first != second,
    ensures
        !path::same_path(
            path::joined(directory, renderer_file_name(first)),
            path::joined(directory, renderer_file_name(second)),
        ),
{
    let prefix = encode_utf8("renderer-"@);
    lemma_renderer_file_name(first);
    lemma_renderer_file_name(second);
    path::joined_file_name(directory, renderer_file_name(first));
    path::joined_file_name(directory, renderer_file_name(second));
    if renderer_file_name(first) == renderer_file_name(second) {
        assert(text::decimal(first as nat) =~= renderer_file_name(first).skip(
            prefix.len() as int,
        ));
        assert(text::decimal(second as nat) =~= renderer_file_name(second).skip(
            prefix.len() as int,
        ));
        text::decimal_is_injective(first as nat, second as nat);
    }
}

/// The byte strings that vectors hold.
pub open spec fn byte_strings(vectors: Seq<Vec<u8>>) -> Seq<Seq<u8>> {
    Seq::new(vectors.len(), |i: int| vectors[i]@)
}

/// The arguments of the renderer, each in its fixed position: the two images, the video, and the
/// two coordinates of the origin in decimal notation.
pub fn renderer_arguments(
    before: &FilePath,
    after: &FilePath,
    output: &FilePath,
    x: &str,
    y: &str,
) -> (arguments: Vec<Vec<u8>>)
    ensures
        byte_strings(arguments@) == seq![
            before@,
            after@,
            output@,
            encode_utf8(x@),
            encode_utf8(y@),
        ],
        arguments@.len() == 5,
        arguments@[0]@ == before@,
        arguments@[1]@ == after@,
        arguments@[2]@ == output@,
        arguments@[3]@ == encode_utf8(x@),
        arguments@[4]@ == encode_utf8(y@),
{
    let mut arguments: Vec<Vec<u8>> = Vec::new();
    arguments.push(before.bytes.clone());
    arguments.push(after.bytes.clone());
    arguments.push(output.bytes.clone());
    arguments.push(vstd::slice::slice_to_vec(x.as_bytes()));
    arguments.push(vstd::slice::slice_to_vec(y.as_bytes()));
    assert(byte_strings(arguments@) =~= seq![
        before@,
        after@,
        output@,
        encode_utf8(x@),
        encode_utf8(y@),
    ]);
    arguments
}

/// What the renderer says of a video that it made.
#[derive(Clone, Copy, Debug)]
pub struct NativeRenderSummary {
    pub width: usize,
    pub height: usize,
    pub frames: usize,
    /// The bits of a double-precision number.
    pub duration_seconds_bits: u64,
    pub frames_per_second: u32,
}

/// What the file system says of a file.
#[derive(Clone, Copy, Debug)]
pub struct FileFacts {
    pub is_file: bool,
    pub bytes: u64,
}

/// How the run of the renderer went.
#[derive(Debug)]
pub enum RendererRun {
    /// The program could not be put in its place.
    NotPrepared,
    /// The program could not be started.
    NotStarted,
    /// The program ended without success, and wrote this.
    Failed { stderr: Vec<u8> },
    /// The program ended with success. Its summary, where it could be read; what the file system
    /// then says of the video, where it could be looked at; and how long all of it took.
    Succeeded {
        summary: Option<NativeRenderSummary>,
        video: Option<FileFacts>,
        milliseconds: u128,
    },
}

/// The model of a `RendererRun`.
#[verifier::ext_equal]
pub enum RendererRunView {
    NotPrepared,
    NotStarted,
    Failed { stderr: Seq<u8> },
    Succeeded {
        summary: Option<NativeRenderSummary>,
        video: Option<FileFacts>,
        milliseconds: u128,
    },
}

impl View for RendererRun {
    type V = RendererRunView;

    open spec fn view(&self) -> RendererRunView {
        match self {
            RendererRun::NotPrepared => RendererRunView::NotPrepared,
            RendererRun::NotStarted => RendererRunView::NotStarted,
            RendererRun::Failed { stderr } => RendererRunView::Failed { stderr: stderr@ },
            RendererRun::Succeeded { summary, video, milliseconds } => RendererRunView::Succeeded {
                summary: *summary,
                video: *video,
                milliseconds: *milliseconds,
            },
        }
    }
}

/// What the interface is told of a video that was rendered.
#[derive(Debug)]
pub struct RenderResult {
    pub output_file_name: String,
    pub output_bytes: u64,
    pub width: usize,
    pub height: usize,
    pub frames: usize,
    /// The bits of a double-precision number.
    pub duration_seconds_bits: u64,
    pub frames_per_second: u32,
    pub render_milliseconds: u128,
}

/// The model of a `RenderResult`.
#[verifier::ext_equal]
pub struct RenderResultView {
    pub output_file_name: Seq<char>,
    pub output_bytes: u64,
    pub summary: NativeRenderSummary,
    pub render_milliseconds: u128,
}

impl View for RenderResult {
    type V = RenderResultView;

    open spec fn view(&self) -> RenderResultView {
        RenderResultView {
            output_file_name: self.output_file_name@,
            output_bytes: self.output_bytes,
            summary: NativeRenderSummary {
                width: self.width,
                height: self.height,
                frames: self.frames,
                duration_seconds_bits: self.duration_seconds_bits,
                frames_per_second: self.frames_per_second,
            },
            render_milliseconds: self.render_milliseconds,
        }
    }
}

/// The result of a run that was given the paths `before`, `after` and `output`, or the message of
/// its failure.
pub open spec fn run_verdict(
    before: Seq<u8>,
    after: Seq<u8>,
    output: Seq<u8>,
    run: RendererRunView,
) -> Result<RenderResultView, Seq<char>> {
    match run {
        RendererRunView::NotPrepared => Err("The Metal renderer could not be prepared."@),
        RendererRunView::NotStarted => Err("The bundled Metal renderer could not start."@),
        RendererRunView::Failed { stderr } => Err(
            report::sanitized(stderr, seq![before, after, output]),
        ),
        RendererRunView::Succeeded { summary: None, .. } => Err(
            "The Metal renderer returned an invalid result."@,
        ),
        RendererRunView::Succeeded { summary: Some(summary), video, milliseconds } => match video {
            Some(facts) => if facts.is_file && facts.bytes > 0 {
                Ok(
                    RenderResultView {
                        output_file_name: match selection::file_name_text(output) {
                            Some(name) => name,
                            None => default_file_name(),
                        },
                        output_bytes: facts.bytes,
                        summary,
                        render_milliseconds: milliseconds,
                    },
                )
            } else {
                Err("The renderer finished without producing an MP4."@)
            },
            None => Err("The renderer finished without producing an MP4."@),
        },
    }
}

/// Decides what came of a run of the renderer that was given `before`, `after` and `output`.
pub fn run_renderer(
    before: &FilePath,
    after: &FilePath,
    output: &FilePath,
    run: RendererRun,
) -> (verdict: Result<RenderResult, String>)
    ensures
        text::reply_view(verdict) == run_verdict(before@, after@, output@, run@),
        run@ matches RendererRunView::Failed { stderr } ==> report::reads_faithfully(
            stderr,
            seq![before@, after@, output@],
        ),
        (run, verdict) matches (
            RendererRun::Succeeded { summary: Some(summary), video: Some(facts), milliseconds },
            Ok(result),
        ) ==> result.width == summary.width && result.height == summary.height && result.frames
            == summary.frames && result.duration_seconds_bits == summary.duration_seconds_bits
            && result.frames_per_second == summary.frames_per_second && result.output_bytes
            == facts.bytes && result.render_milliseconds == milliseconds,
{
    match run {
        RendererRun::NotPrepared => Err("The Metal renderer could not be prepared.".to_owned()),
        RendererRun::NotStarted => Err("The bundled Metal renderer could not start.".to_owned()),
        RendererRun::Failed { stderr } => {
            let paths = [before, after, output];
            assert(report::path_bytes(paths@) =~= seq![before@, after@, output@]);
            Err(report::sanitize_renderer_error(stderr.as_slice(), paths))
        },
        RendererRun::Succeeded { summary, video, milliseconds } => {
            let summary = match summary {
                Some(summary) => summary,
                None => {
                    return Err("The Metal renderer returned an invalid result.".to_owned());
                },
            };
            let facts = match video {
                Some(facts) => facts,
                None => {
                    return Err("The renderer finished without producing an MP4.".to_owned());
                },
            };
            if !facts.is_file || facts.bytes == 0 {
                return Err("The renderer finished without producing an MP4.".to_owned());
            }
            let output_file_name = match selection::read_file_name(output) {
                Some(name) => name,
                None => default_video_name().to_owned(),
            };
            Ok(
                RenderResult {
                    output_file_name,
                    output_bytes: facts.bytes,
                    width: summary.width,
                    height: summary.height,
                    frames: summary.frames,
                    duration_seconds_bits: summary.duration_seconds_bits,
                    frames_per_second: summary.frames_per_second,
                    render_milliseconds: milliseconds,
                },
            )
        },
    }
}

/// A run counts as a success exactly where the program said so in a form that can be read and a
/// regular file that is not empty stands at the path of the video.
pub proof fn success_needs_a_video(
    before: Seq<u8>,
    after: Seq<u8>,
    output: Seq<u8>,
    run: RendererRunView,
)
    ensures
        run_verdict(before, after, output, run) is Ok <==> (
        run matches RendererRunView::Succeeded { summary, video, .. } && summary is Some && (
        video matches Some(facts) && facts.is_file && facts.bytes > 0)),
{
}

/// The result of a run that made a video: what the program said of it, each number as it was said,
/// the size of the file, the time that was taken, and the text of the last name of the path, or the
/// name that is proposed for a video where that name is not text.
pub proof fn result_is_what_the_run_gave(
    before: Seq<u8>,
    after: Seq<u8>,
    output: Seq<u8>,
    summary: NativeRenderSummary,
    facts: FileFacts,
    milliseconds: u128,
)
    requires
        facts.is_file,
        facts.bytes > 0,
    ensures
        run_verdict(
            before,
            after,
            output,
            RendererRunView::Succeeded {
                summary: Some(summary),
                video: Some(facts),
                milliseconds,
            },
        ) matches Ok(result) && result.summary.width == summary.width && result.summary.height
            == summary.height && result.summary.frames == summary.frames
            && result.summary.duration_seconds_bits == summary.duration_seconds_bits
            && result.summary.frames_per_second == summary.frames_per_second && result.output_bytes
            == facts.bytes && result.render_milliseconds == milliseconds && (path::file_name(
            output,
        ) matches Some(name) ==> valid_utf8(name) ==> encode_utf8(result.output_file_name) == name
            && result.output_file_name == decode_utf8(name)) && (!(path::file_name(
            output,
        ) matches Some(name) && valid_utf8(name)) ==> result.output_file_name
            == "ripple-transition.mp4"@),
{
    if path::file_name(output) is Some {
        text::text_encodes_to_its_bytes(path::file_name(output)->0);
    }
}

/// A run that made no video is answered with the reason: the program could not be prepared, could
/// not be started, failed, gave no summary that can be read, or left no regular file that is not
/// empty.
pub proof fn run_refusals_say_why(
    before: Seq<u8>,
    after: Seq<u8>,
    output: Seq<u8>,
    stderr: Seq<u8>,
    summary: NativeRenderSummary,
    video: Option<FileFacts>,
    milliseconds: u128,
)
    ensures
        run_verdict(before, after, output, RendererRunView::NotPrepared) == Err::<
            RenderResultView,
            Seq<char>,
        >("The Metal renderer could not be prepared."@),
        run_verdict(before, after, output, RendererRunView::NotStarted) == Err::<
            RenderResultView,
            Seq<char>,
        >("The bundled Metal renderer could not start."@),
        run_verdict(before, after, output, RendererRunView::Failed { stderr }) == Err::<
            RenderResultView,
            Seq<char>,
        >(report::sanitized(stderr, seq![before, after, output])),
        run_verdict(
            before,
            after,
            output,
            RendererRunView::Succeeded { summary: None, video, milliseconds },
        ) == Err::<RenderResultView, Seq<char>>("The Metal renderer returned an invalid result."@),
        !(video matches Some(facts) && facts.is_file && facts.bytes > 0) ==> run_verdict(
            before,
            after,
            output,
            RendererRunView::Succeeded { summary: Some(summary), video, milliseconds },
        ) == Err::<RenderResultView, Seq<char>>(
            "The renderer finished without producing an MP4."@,
        ),
{
}

/// The program of the renderer is put in a directory of its version within the temporary
/// directory, under a name with the number of the process.
pub proof fn renderer_is_put_in_its_directory(
    temporary: Seq<u8>,
    version: Seq<char>,
    process: u32,
)
    requires
        !encode_utf8(version).contains(0x2fu8),
    ensures
        path::names(renderer_directory(temporary, version)) == path::names(temporary).push(
            encode_utf8("ripple-renderer-"@) + encode_utf8(version),
        ),
        renderer_directory(temporary, version).take(temporary.len() as int) == temporary,
        path::names(
            path::joined(renderer_directory(temporary, version), renderer_file_name(process)),
        ) == path::names(temporary).push(
            encode_utf8("ripple-renderer-"@) + encode_utf8(version),
        ).push(encode_utf8("renderer-"@) + text::decimal(process as nat)),
        path::file_name(
            path::joined(renderer_directory(temporary, version), renderer_file_name(process)),
        ) == Some(encode_utf8("renderer-"@) + text::decimal(process as nat)),
{
    let prefix = encode_utf8("ripple-renderer-"@);
    let name = prefix + encode_utf8(version);
    reveal_strlit("ripple-renderer-");
    assert(is_ascii_chars("ripple-renderer-"@));
    is_ascii_chars_encode_utf8("ripple-renderer-"@);
    assert(prefix.len() == 16);
    assert forall|i: int| 0 <= i < name.len() implies name[i] != 0x2f by {
        if i < prefix.len() {
            assert(name[i] == "ripple-renderer-"@[i] as u8);
        } else {
            assert(encode_utf8(version).contains(encode_utf8(version)[i - prefix.len()]));
        }
    }
    assert(seq![0x2eu8].len() == 1);
    path::piece_is_a_name(name);
    path::joined_path_is_in_the_folder(temporary, name);
    assert(path::names(temporary) + path::names(name) =~= path::names(temporary).push(name));
    let directory = renderer_directory(temporary, version);
    let file = renderer_file_name(process);
    lemma_renderer_file_name(process);
    assert(!path::is_rooted(file)) by {
        assert(file.contains(file[0]));
    }
    path::piece_is_a_name(file);
    path::joined_path_is_in_the_folder(directory, file);
    assert(path::names(directory) + path::names(file) =~= path::names(directory).push(file));
    path::joined_file_name(directory, file);
}

/// The owner may read, write and run the program of the renderer; nobody else may do anything.
pub proof fn nobody_else_may_use_the_renderer()
    ensures
        OWNER_ONLY == 7 * 8 * 8,
        OWNER_ONLY % 64 == 0,
{
}

/// Runs, results and arguments are seen field by field.
pub proof fn runs_are_seen_by_field(
    result: RenderResult,
    stderr: Vec<u8>,
    summary: Option<NativeRenderSummary>,
    video: Option<FileFacts>,
    milliseconds: u128,
    vectors: Seq<Vec<u8>>,
)
    ensures
        result@.output_file_name == result.output_file_name@,
        result@.output_bytes == result.output_bytes,
        result@.summary.width == result.width,
        result@.summary.height == result.height,
        result@.summary.frames == result.frames,
        result@.summary.duration_seconds_bits == result.duration_seconds_bits,
        result@.summary.frames_per_second == result.frames_per_second,
        result@.render_milliseconds == result.render_milliseconds,
        RendererRun::NotPrepared@ == RendererRunView::NotPrepared,
        RendererRun::NotStarted@ == RendererRunView::NotStarted,
        (RendererRun::Failed { stderr })@ == (RendererRunView::Failed { stderr: stderr@ }),
        (RendererRun::Succeeded { summary, video, milliseconds })@ == (RendererRunView::Succeeded {
            summary,
            video,
            milliseconds,
        }),
        byte_strings(vectors).len() == vectors.len(),
        forall|i: int| 0 <= i < vectors.len() ==> #[trigger] byte_strings(vectors)[i] == vectors[i]@,
{
}

} // verus!
