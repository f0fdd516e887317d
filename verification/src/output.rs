//! Where the video may be saved.
//!
//! The decision takes three steps, because the file system has to be asked in between: a plan from
//! the path that was asked for, the place in the folder that the plan leads to, and the look at
//! what stands at that place.
use crate::path;
use crate::path::FilePath;
use crate::text;
use vstd::prelude::*;
use vstd::utf8::*;

verus! {

/// The path to write to before its folder was looked up, and that folder.
#[derive(Debug)]
pub struct OutputPlan {
    pub path: FilePath,
    pub folder: FilePath,
}

/// The model of an `OutputPlan`.
#[verifier::ext_equal]
pub struct OutputPlanView {
    pub path: Seq<u8>,
    pub folder: Seq<u8>,
}

impl View for OutputPlan {
    type V = OutputPlanView;

    open spec fn view(&self) -> OutputPlanView {
        OutputPlanView { path: self.path@, folder: self.folder@ }
    }
}

/// What tells a file of the file system from every other: its device and its number there.
#[derive(Clone, Copy, Debug, PartialEq, Eq, Structural)]
pub struct FileId {
    pub device: u64,
    pub inode: u64,
}

/// What stands at the path to write to.
#[derive(Clone, Copy, Debug)]
pub enum Occupant {
    /// Nothing that could be looked at.
    Vacant,
    /// Something, and the two source images as far as they could be looked at.
    Present {
        is_symlink: bool,
        is_file: bool,
        id: FileId,
        before: Option<FileId>,
        after: Option<FileId>,
    },
}

/// The extension of a video, as bytes.
pub open spec fn mp4() -> Seq<u8> {
    encode_utf8("mp4"@)
}

/// Whether `path` ends in the extension of a video, whatever the case of its letters.
pub open spec fn is_video_path(path: Seq<u8>) -> bool {
    match path::extension(path) {
        Some(ending) => text::spells(ending, "mp4"@),
        None => false,
    }
}

/// The extension of `path`, where it is text.
pub open spec fn extension_text(path: Seq<u8>) -> Option<Seq<char>> {
    match path::extension(path) {
        Some(ending) => text::utf8_text(ending),
        None => None,
    }
}

/// The plan for the path that was asked for. A path without a readable extension is given the one
/// of a video; any other extension is refused.
pub open spec fn output_plan(asked: Seq<u8>) -> Result<OutputPlanView, Seq<char>> {
    if extension_text(asked) is Some && !is_video_path(asked) {
        Err("Save the video with an .mp4 extension."@)
    } else {
        let path = if extension_text(asked) is Some {
            asked
        } else {
            path::with_extension(asked, mp4())
        };
        match path::parent(path) {
            Some(folder) => Ok(OutputPlanView { path, folder }),
            None => Err("Choose a folder for the MP4."@),
        }
    }
}

/// The place of the planned file in `folder`, the folder of the plan without links. It may not be
/// the place of a source image.
pub open spec fn output_place(
    plan: OutputPlanView,
    folder: Option<Seq<u8>>,
    before: Seq<u8>,
    after: Seq<u8>,
) -> Result<Seq<u8>, Seq<char>> {
    match (folder, path::file_name(plan.path)) {
        (None, _) => Err("The selected output folder is unavailable."@),
        (Some(folder), None) => Err("Enter a file name for the MP4."@),
        (Some(folder), Some(name)) => {
            let place = path::joined(folder, name);
            if path::same_path(place, before) || path::same_path(place, after) {
                Err("The MP4 cannot replace one of the source images."@)
            } else {
                Ok(place)
            }
        },
    }
}

/// The message that refuses what stands at the path to write to, if it may not be replaced.
pub open spec fn occupant_objection(occupant: Occupant) -> Option<Seq<char>> {
    match occupant {
        Occupant::Vacant => None,
        Occupant::Present { is_symlink, is_file, id, before, after } => if is_symlink {
            Some("Choose a regular file instead of a symbolic link."@)
        } else if !is_file {
            Some("The output location is not a regular file."@)
        } else if before == Some(id) || after == Some(id) {
            Some("The MP4 cannot replace one of the source images."@)
        } else {
            None
        },
    }
}

/// The whole decision: the path to write to, or the reason to refuse.
pub open spec fn output_verdict(
    asked: Seq<u8>,
    before: Seq<u8>,
    after: Seq<u8>,
    folder: Option<Seq<u8>>,
    occupant: Occupant,
) -> Result<Seq<u8>, Seq<char>> {
    match output_plan(asked) {
        Ok(plan) => match output_place(plan, folder, before, after) {
            Ok(place) => match occupant_objection(occupant) {
                Some(message) => Err(message),
                None => Ok(place),
            },
            Err(message) => Err(message),
        },
        Err(message) => Err(message),
    }
}

/// The extension of a video holds neither a dot nor a separator.
proof fn lemma_mp4()
    ensures
        text::spells(mp4(), "mp4"@),
        mp4() == seq![0x6du8, 0x70u8, 0x34u8],
        mp4().len() == 3,
        !mp4().contains(path::DOT),
        !mp4().contains(path::SEPARATOR),
{
    reveal_strlit("mp4");
    assert(is_ascii_chars("mp4"@));
    is_ascii_chars_encode_utf8("mp4"@);
    assert(mp4() =~= seq![0x6du8, 0x70u8, 0x34u8]);
}

/// Plans where to write from the path that was asked for.
pub fn plan_output(asked: FilePath) -> (plan: Result<OutputPlan, String>)
    ensures
        text::reply_view(plan) == output_plan(asked@),
{
    let mut path = asked;
    let ending = path.extension();
    proof {
        lemma_mp4();
        reveal_strlit("mp4");
    }
    let ending_text = match &ending {
        Some(bytes) => text::read_utf8(bytes.as_slice()),
        None => None,
    };
    match (&ending, ending_text) {
        (Some(bytes), Some(_)) => {
            if !text::is_spelling(bytes.as_slice(), "mp4") {
                return Err("Save the video with an .mp4 extension.".to_owned());
            }
        },
        _ => {
            path.set_extension("mp4");
        },
    }
    match path.parent() {
        Some(folder) => Ok(OutputPlan { path, folder }),
        None => Err("Choose a folder for the MP4.".to_owned()),
    }
}

/// Places the planned file in its folder, which the file system gave without links.
pub fn place_output(
    plan: &OutputPlan,
    folder: Option<FilePath>,
    before: &FilePath,
    after: &FilePath,
) -> (place: Result<FilePath, String>)
    ensures
        text::reply_view(place) == output_place(plan@, text::option_view(folder), before@, after@),
{
    let folder = match folder {
        Some(folder) => folder,
        None => return Err("The selected output folder is unavailable.".to_owned()),
    };
    let name = match plan.path.file_name() {
        Some(name) => name,
        None => return Err("Enter a file name for the MP4.".to_owned()),
    };
    let place = folder.join(&FilePath { bytes: name });
    if place.is_same(before) || place.is_same(after) {
        return Err("The MP4 cannot replace one of the source images.".to_owned());
    }
    Ok(place)
}

/// Says whether what stands at the path to write to may be replaced.
pub fn confirm_output(occupant: Occupant) -> (verdict: Result<(), String>)
    ensures
        match verdict {
            Ok(_) => occupant_objection(occupant) is None,
            Err(message) => occupant_objection(occupant) == Some(message@),
        },
{
    match occupant {
        Occupant::Vacant => Ok(()),
        Occupant::Present { is_symlink, is_file, id, before, after } => {
            if is_symlink {
                return Err("Choose a regular file instead of a symbolic link.".to_owned());
            }
            if !is_file {
                return Err("The output location is not a regular file.".to_owned());
            }
            if is_file_id(before, id) || is_file_id(after, id) {
                return Err("The MP4 cannot replace one of the source images.".to_owned());
            }
            Ok(())
        },
    }
}

fn is_file_id(found: Option<FileId>, id: FileId) -> (answer: bool)
    ensures
        answer == (found == Some(id)),
{
    match found {
        Some(other) => other.device == id.device && other.inode == id.inode,
        None => false,
    }
}

/// Decides where to write, given what the file system says of the folder and of what stands there.
pub fn validate_output_path(
    output: FilePath,
    before: &FilePath,
    after: &FilePath,
    folder: Option<FilePath>,
    occupant: Occupant,
) -> (verdict: Result<FilePath, String>)
    ensures
        text::reply_view(verdict) == output_verdict(
            output@,
            before@,
            after@,
            text::option_view(folder),
            occupant,
        ),
{
    let plan = match plan_output(output) {
        Ok(plan) => plan,
        Err(message) => return Err(message),
    };
    let place = match place_output(&plan, folder, before, after) {
        Ok(place) => place,
        Err(message) => return Err(message),
    };
    match confirm_output(occupant) {
        Ok(_) => Ok(place),
        Err(message) => Err(message),
    }
}

/// A plan leads to a video, unless it has no file name, which its placing refuses.
pub proof fn plan_is_video(asked: Seq<u8>)
    ensures
        output_plan(asked) matches Ok(plan) ==> (path::file_name(plan.path) is Some
            ==> is_video_path(plan.path)),
{
    lemma_mp4();
    if extension_text(asked) is None && path::file_name(asked) is Some {
        path::extension_is_set(asked, mp4());
    }
}

/// What is placed in a folder has the file name of the plan.
pub proof fn place_is_in_folder(
    plan: OutputPlanView,
    folder: Option<Seq<u8>>,
    before: Seq<u8>,
    after: Seq<u8>,
)
    ensures
        output_place(plan, folder, before, after) matches Ok(place) ==> folder is Some
            && path::file_name(plan.path) is Some && place == path::joined(
            folder->0,
            path::file_name(plan.path)->0,
        ) && path::file_name(place) == path::file_name(plan.path) && path::extension(place)
            == path::extension(plan.path),
{
    if folder is Some && path::file_name(plan.path) is Some {
        path::file_name_is_file_name(plan.path);
        path::joined_file_name(folder->0, path::file_name(plan.path)->0);
    }
}

/// Every path that is accepted is the path of a video.
pub proof fn accepted_output_is_video(
    asked: Seq<u8>,
    before: Seq<u8>,
    after: Seq<u8>,
    folder: Option<Seq<u8>>,
    occupant: Occupant,
)
    ensures
        output_verdict(asked, before, after, folder, occupant) matches Ok(place) ==> is_video_path(
            place,
        ),
{
    plan_is_video(asked);
    if let Ok(plan) = output_plan(asked) {
        place_is_in_folder(plan, folder, before, after);
    }
}

/// No path that is accepted replaces a source image: it is not the path of one, and what stands
/// there is neither a link nor one of the two files under another name.
pub proof fn accepted_output_spares_sources(
    asked: Seq<u8>,
    before: Seq<u8>,
    after: Seq<u8>,
    folder: Option<Seq<u8>>,
    occupant: Occupant,
)
    ensures
        output_verdict(asked, before, after, folder, occupant) matches Ok(place)
            ==> !path::same_path(place, before) && !path::same_path(place, after) && (
        occupant matches Occupant::Present { is_symlink, is_file, id, before, after } ==> !is_symlink
            && is_file && before != Some(id) && after != Some(id)),
{
}

/// What spells the extension of a video is UTF-8.
proof fn lemma_spelled_mp4(ending: Seq<u8>)
    requires
        text::spells(ending, "mp4"@),
    ensures
        valid_utf8(ending),
{
    reveal_strlit("mp4");
    let chars = Seq::new(ending.len(), |i: int| ending[i] as char);
    assert forall|i: int| 0 <= i < ending.len() implies #[trigger] ending[i] < 0x80 by {
        assert(text::ascii_lower(ending[i]) as char == "mp4"@[i]);
    }
    assert(is_ascii_chars(chars));
    is_ascii_chars_encode_utf8(chars);
    assert(encode_utf8(chars) =~= ending);
    encode_utf8_valid_utf8(chars);
}

/// The folder of a plan is the folder of the path that was asked for: it holds all names of that
/// path but the last, begins as it does and is a beginning of its bytes; and the file name of the
/// plan in that folder is the path of the plan.
pub proof fn plan_keeps_the_folder(asked: Seq<u8>)
    requires
        path::names(asked).len() > 0,
    ensures
        output_plan(asked) matches Ok(plan) ==> ({
            &&& path::names(plan.folder) == path::names(asked).drop_last()
            &&& path::is_rooted(plan.folder) == path::is_rooted(asked)
            &&& path::is_dotted(plan.folder) == path::is_dotted(asked)
            &&& plan.folder.len() < asked.len()
            &&& plan.folder == asked.take(plan.folder.len() as int)
            &&& path::names(plan.path).len() > 0
            &&& path::names(plan.path).drop_last() == path::names(asked).drop_last()
            &&& path::is_rooted(plan.path) == path::is_rooted(asked)
            &&& path::is_dotted(plan.path) == path::is_dotted(asked)
            &&& path::same_path(
                path::joined(plan.folder, path::names(plan.path).last()),
                plan.path,
            )
            &&& path::file_name(plan.path) matches Some(name) ==> path::same_path(
                path::joined(plan.folder, name),
                plan.path,
            )
        }),
{
    lemma_mp4();
    path::set_extension_keeps_the_folder(asked, mp4());
    path::parent_is_the_folder(asked);
    if let Ok(plan) = output_plan(asked) {
        if path::file_name(asked) is Some && plan.path != asked {
            assert(path::names(plan.path).drop_last() =~= path::names(asked).drop_last());
        }
        path::parent_is_the_folder(plan.path);
    }
}

/// A path without a name is planned as it is, where it is dotted, and then in the working
/// directory.
pub proof fn nameless_plan_stays(asked: Seq<u8>)
    requires
        path::names(asked).len() == 0,
    ensures
        path::is_dotted(asked) ==> (output_plan(asked) matches Ok(plan) && plan.path == asked
            && plan.folder.len() == 0),
        !path::is_dotted(asked) ==> output_plan(asked) == Err::<OutputPlanView, Seq<char>>(
            "Choose a folder for the MP4."@,
        ),
{
    path::nameless_path_has_no_folder(asked);
}

/// The name that was asked for is kept where it ends in the extension of a video. A name without
/// an extension that can be read is given `.mp4`, behind its stem.
pub proof fn plan_keeps_the_name(asked: Seq<u8>)
    ensures
        output_plan(asked) matches Ok(plan) ==> ({
            &&& path::extension(asked) matches Some(ending) ==> (text::spells(ending, "mp4"@)
                ==> plan.path == asked)
            &&& path::file_name(asked) is None ==> plan.path == asked
            &&& path::file_name(asked) matches Some(name) ==> (!is_video_path(asked)
                ==> path::file_name(plan.path) == Some(
                path::stem(name) + seq![0x2eu8, 0x6du8, 0x70u8, 0x34u8],
            ))
            &&& path::file_name(asked) matches Some(name) ==> (!name.contains(0x2eu8)
                ==> path::file_name(plan.path) == Some(
                name + seq![0x2eu8, 0x6du8, 0x70u8, 0x34u8],
            ))
        }),
{
    lemma_mp4();
    if let Some(ending) = path::extension(asked) {
        if text::spells(ending, "mp4"@) {
            lemma_spelled_mp4(ending);
        }
    }
    path::extension_needs_a_dot(asked);
    if let Some(name) = path::file_name(asked) {
        path::extension_is_set(asked, mp4());
        assert(path::stem(name) + seq![path::DOT] + mp4() =~= path::stem(name) + seq![
            0x2eu8,
            0x6du8,
            0x70u8,
            0x34u8,
        ]);
        if !name.contains(0x2eu8) {
            path::stem_is_before_the_last_dot(Seq::empty(), name);
        }
    }
}

/// A path is refused as one of a video exactly where it ends in another extension that can be
/// read. Any other path that has a name or is dotted is planned.
pub proof fn plan_is_refused_for_its_extension(asked: Seq<u8>)
    ensures
        (path::extension(asked) matches Some(ending) && valid_utf8(ending) && !text::spells(
            ending,
            "mp4"@,
        )) ==> output_plan(asked) == Err::<OutputPlanView, Seq<char>>(
            "Save the video with an .mp4 extension."@,
        ),
        !(path::extension(asked) matches Some(ending) && valid_utf8(ending) && !text::spells(
            ending,
            "mp4"@,
        )) && path::names(asked).len() > 0 ==> output_plan(asked) is Ok,
{
    lemma_mp4();
    path::set_extension_keeps_the_folder(asked, mp4());
    if path::names(asked).len() > 0 {
        path::parent_is_the_folder(asked);
    }
}

/// A planned file is placed in the folder that was found: its path holds the names of the folder
/// and then the file name of the plan, begins with the bytes of the folder and ends with those of
/// the name.
pub proof fn place_is_the_folder_and_the_name(
    plan: OutputPlanView,
    folder: Seq<u8>,
    before: Seq<u8>,
    after: Seq<u8>,
)
    ensures
        output_place(plan, Some(folder), before, after) matches Ok(place) ==> ({
            let name = path::file_name(plan.path)->0;
            &&& path::file_name(plan.path) is Some
            &&& path::names(place) == path::names(folder).push(name)
            &&& path::is_rooted(place) == path::is_rooted(folder)
            &&& place.len() >= folder.len() + name.len()
            &&& place.len() <= folder.len() + 1 + name.len()
            &&& place.take(folder.len() as int) == folder
            &&& place.skip(place.len() - name.len()) == name
            &&& !path::same_path(place, before)
            &&& !path::same_path(place, after)
        }),
{
    if let Some(name) = path::file_name(plan.path) {
        path::file_name_is_file_name(plan.path);
        assert(!path::is_rooted(name)) by {
            assert(name.contains(name[0]));
        }
        path::joined_path_is_in_the_folder(folder, name);
        path::piece_is_a_name(name);
        assert(path::names(folder) + path::names(name) =~= path::names(folder).push(name));
    }
}

/// A planned file is refused for the first of the reasons that hold: its folder cannot be found,
/// it has no file name, it is the path of a source image. Otherwise it is placed.
pub proof fn placing_refusals_say_why(
    plan: OutputPlanView,
    folder: Seq<u8>,
    before: Seq<u8>,
    after: Seq<u8>,
)
    ensures
        output_place(plan, None, before, after) == Err::<Seq<u8>, Seq<char>>(
            "The selected output folder is unavailable."@,
        ),
        path::file_name(plan.path) is None ==> output_place(plan, Some(folder), before, after)
            == Err::<Seq<u8>, Seq<char>>("Enter a file name for the MP4."@),
        path::file_name(plan.path) matches Some(name) ==> ({
            let taken = path::same_path(path::joined(folder, name), before) || path::same_path(
                path::joined(folder, name),
                after,
            );
            &&& taken ==> output_place(plan, Some(folder), before, after) == Err::<
                Seq<u8>,
                Seq<char>,
            >("The MP4 cannot replace one of the source images."@)
            &&& !taken ==> output_place(plan, Some(folder), before, after) == Ok::<
                Seq<u8>,
                Seq<char>,
            >(path::joined(folder, name))
        }),
{
}

/// What stands at the place of a video may be replaced where it is a regular file that is neither
/// a link nor one of the two images; otherwise it is refused for the first of these reasons. Where
/// nothing stands nothing is in the way.
pub proof fn occupant_refusals_say_why(
    is_symlink: bool,
    is_file: bool,
    id: FileId,
    before: Option<FileId>,
    after: Option<FileId>,
)
    ensures
        occupant_objection(Occupant::Vacant) is None,
        ({
            let objection = occupant_objection(
                Occupant::Present { is_symlink, is_file, id, before, after },
            );
            let is_source = (before matches Some(found) && found.device == id.device && found.inode
                == id.inode) || (after matches Some(found) && found.device == id.device
                && found.inode == id.inode);
            &&& is_symlink ==> objection == Some(
                "Choose a regular file instead of a symbolic link."@,
            )
            &&& !is_symlink && !is_file ==> objection == Some(
                "The output location is not a regular file."@,
            )
            &&& !is_symlink && is_file && is_source ==> objection == Some(
                "The MP4 cannot replace one of the source images."@,
            )
            &&& !is_symlink && is_file && !is_source ==> objection is None
        }),
{
}

/// A path is accepted exactly where it has a file name that ends in no other extension than that
/// of a video, its folder was found, and what stands there is neither an image of the transition
/// nor anything but a regular file.
pub proof fn output_is_accepted_where_nothing_objects(
    asked: Seq<u8>,
    before: Seq<u8>,
    after: Seq<u8>,
    folder: Option<Seq<u8>>,
    occupant: Occupant,
)
    ensures
        output_verdict(asked, before, after, folder, occupant) is Ok <==> ({
            &&& !(path::extension(asked) matches Some(ending) && valid_utf8(ending)
                && !text::spells(ending, "mp4"@))
            &&& path::file_name(asked) is Some
            &&& folder is Some
            &&& output_plan(asked) matches Ok(plan) && path::file_name(plan.path) matches Some(name)
                && !path::same_path(path::joined(folder->0, name), before) && !path::same_path(
                path::joined(folder->0, name),
                after,
            )
            &&& occupant matches Occupant::Present { is_symlink, is_file, id, before, after }
                ==> !is_symlink && is_file && before != Some(id) && after != Some(id)
        }),
{
    plan_keeps_the_name(asked);
    plan_is_refused_for_its_extension(asked);
    if path::names(asked).len() == 0 {
        nameless_plan_stays(asked);
    }
    if let Ok(plan) = output_plan(asked) {
        if let Some(folder) = folder {
            placing_refusals_say_why(plan, folder, before, after);
        }
    }
}

/// The video is written to the folder that was found for the path that was asked for, under the
/// name that was asked for, which is given `.mp4` where it does not end in the extension of a
/// video.
pub proof fn video_is_written_under_the_name_asked_for(
    asked: Seq<u8>,
    before: Seq<u8>,
    after: Seq<u8>,
    folder: Option<Seq<u8>>,
    occupant: Occupant,
)
    ensures
        output_verdict(asked, before, after, folder, occupant) matches Ok(place) ==> ({
            let name = path::file_name(asked)->0;
            let written = if is_video_path(asked) {
                name
            } else {
                path::stem(name) + seq![0x2eu8, 0x6du8, 0x70u8, 0x34u8]
            };
            &&& folder is Some
            &&& path::file_name(asked) is Some
            &&& path::names(place) == path::names(folder->0).push(written)
            &&& path::is_rooted(place) == path::is_rooted(folder->0)
            &&& place.take(folder->0.len() as int) == folder->0
            &&& place.skip(place.len() - written.len()) == written
        }),
{
    output_is_accepted_where_nothing_objects(asked, before, after, folder, occupant);
    plan_keeps_the_name(asked);
    if let Ok(plan) = output_plan(asked) {
        if let Some(folder) = folder {
            place_is_the_folder_and_the_name(plan, folder, before, after);
        }
    }
}

/// The reason for which a path is refused is the one that comes first: of its plan, of its place,
/// of what stands there.
pub proof fn first_objection_is_answered(
    asked: Seq<u8>,
    before: Seq<u8>,
    after: Seq<u8>,
    folder: Option<Seq<u8>>,
    occupant: Occupant,
)
    ensures
        output_plan(asked) matches Err(message) ==> output_verdict(
            asked,
            before,
            after,
            folder,
            occupant,
        ) == Err::<Seq<u8>, Seq<char>>(message),
        output_plan(asked) matches Ok(plan) ==> (output_place(
            plan,
            folder,
            before,
            after,
        ) matches Err(message) ==> output_verdict(asked, before, after, folder, occupant) == Err::<
            Seq<u8>,
            Seq<char>,
        >(message)),
        output_plan(asked) matches Ok(plan) ==> (output_place(
            plan,
            folder,
            before,
            after,
        ) matches Ok(place) ==> match occupant_objection(occupant) {
            Some(message) => output_verdict(asked, before, after, folder, occupant) == Err::<
                Seq<u8>,
                Seq<char>,
            >(message),
            None => output_verdict(asked, before, after, folder, occupant) == Ok::<
                Seq<u8>,
                Seq<char>,
            >(place),
        }),
{
}

/// A path is that of a video exactly where its extension spells `mp4`.
pub proof fn video_has_one_extension(path: Seq<u8>)
    ensures
        is_video_path(path) <==> (path::extension(path) matches Some(ending) && text::spells(
            ending,
            "mp4"@,
        )),
        extension_text(path) is Some <==> (path::extension(path) matches Some(ending)
            && valid_utf8(ending)),
{
}

/// A plan is seen field by field.
pub proof fn plan_is_seen_by_field(plan: OutputPlan)
    ensures
        plan@.path == plan.path@,
        plan@.folder == plan.folder@,
{
}

} // verus!
