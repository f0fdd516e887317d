//! What a failed rendering is reported as.
//!
//! The native renderer explains itself in text, which may hold the paths that it was given. The
//! report puts a fixed marker in their place, and is short.
use crate::output;
use crate::path;
use crate::path::FilePath;
use crate::selection;
use crate::text;
use vstd::prelude::*;
use vstd::utf8::*;

verus! {

/// The longest report, in characters.
pub const MAX_REPORT_CHARACTERS: usize = 240;

/// What stands in a report in place of a path.
pub open spec fn marker() -> Seq<char> {
    "selected file"@
}

/// The report where there is nothing to say.
pub open spec fn fallback() -> Seq<char> {
    "The ripple video could not be rendered."@
}

/// `message` with the marker in place of each of `paths`, one after the other.
pub open spec fn redact(message: Seq<char>, paths: Seq<Seq<char>>) -> Seq<char>
    decreases paths.len(),
{
    if paths.len() == 0 {
        message
    } else {
        text::substitute(redact(message, paths.drop_last()), paths.last(), marker())
    }
}

/// The first characters of `message`, as many as a report may have.
pub open spec fn shorten(message: Seq<char>) -> Seq<char> {
    if message.len() > MAX_REPORT_CHARACTERS {
        message.take(MAX_REPORT_CHARACTERS as int)
    } else {
        message
    }
}

/// The report of a renderer that said `said` and was given `paths`.
pub open spec fn report(said: Seq<char>, paths: Seq<Seq<char>>) -> Seq<char> {
    let message = shorten(redact(text::trim(said), paths));
    if message.len() == 0 {
        fallback()
    } else {
        message
    }
}

/// The texts of `paths`.
pub open spec fn path_texts(paths: Seq<Seq<u8>>) -> Seq<Seq<char>> {
    Seq::new(paths.len(), |i: int| text::lossy_text(paths[i]))
}

/// Whether every one of `paths` is UTF-8.
pub open spec fn are_utf8(paths: Seq<Seq<u8>>) -> bool {
    forall|i: int| 0 <= i < paths.len() ==> valid_utf8(#[trigger] paths[i])
}

/// The texts that `paths` encode, where they are UTF-8.
pub open spec fn decoded(paths: Seq<Seq<u8>>) -> Seq<Seq<char>> {
    Seq::new(paths.len(), |i: int| decode_utf8(paths[i]))
}

/// The report of a renderer that wrote the bytes `stderr` and was given `paths`.
pub open spec fn sanitized(stderr: Seq<u8>, paths: Seq<Seq<u8>>) -> Seq<char> {
    report(text::lossy_text(stderr), path_texts(paths))
}

/// Whether what is UTF-8 in `stderr` and in `paths` is kept when they are read.
pub open spec fn reads_faithfully(stderr: Seq<u8>, paths: Seq<Seq<u8>>) -> bool {
    &&& text::is_faithful(stderr)
    &&& forall|i: int| 0 <= i < paths.len() ==> text::is_faithful(#[trigger] paths[i])
    &&& are_utf8(paths) ==> path_texts(paths) == decoded(paths)
}

/// Whether `bytes` are ASCII white space and nothing else.
pub open spec fn is_blank(bytes: Seq<u8>) -> bool {
    forall|i: int|
        0 <= i < bytes.len() ==> #[trigger] bytes[i] < 0x80 && text::is_white_space(
            bytes[i] as char,
        )
}

/// Whether none of `paths` is empty.
pub open spec fn are_nonempty(paths: Seq<Seq<u8>>) -> bool {
    forall|i: int| 0 <= i < paths.len() ==> (#[trigger] paths[i]).len() > 0
}

/// The texts that strings hold.
pub open spec fn texts(strings: Seq<String>) -> Seq<Seq<char>> {
    Seq::new(strings.len(), |i: int| strings[i]@)
}

/// The bytes of paths.
pub open spec fn path_bytes(paths: Seq<&FilePath>) -> Seq<Seq<u8>> {
    Seq::new(paths.len(), |i: int| paths[i]@)
}

/// Makes the report of a renderer that said `said` and was given the paths with the texts `paths`.
pub fn make_report(said: &str, paths: &Vec<String>) -> (message: String)
    ensures
        message@ == report(said@, texts(paths@)),
{
    let said_characters = text::characters(said);
    let word = text::characters("selected file");
    let mut message = vstd::slice::slice_to_vec(text::trimmed(said_characters.as_slice()));
    let mut i: usize = 0;
    while i < paths.len()
        invariant
            i <= paths@.len(),
            word@ == marker(),
            message@ == redact(text::trim(said@), texts(paths@).take(i as int)),
        decreases paths@.len() - i,
    {
        let path = text::characters(paths[i].as_str());
        message = text::substituted(message.as_slice(), path.as_slice(), word.as_slice());
        assert(texts(paths@).take(i + 1).drop_last() =~= texts(paths@).take(i as int));
        i += 1;
    }
    assert(texts(paths@).take(i as int) =~= texts(paths@));
    if message.len() > MAX_REPORT_CHARACTERS {
        message.truncate(MAX_REPORT_CHARACTERS);
    }
    if message.len() == 0 {
        "The ripple video could not be rendered.".to_owned()
    } else {
        text::text_of(message.as_slice())
    }
}

/// Makes the report of a renderer that wrote the bytes `stderr` and was given `paths`.
pub fn sanitize_renderer_error<const N: usize>(stderr: &[u8], paths: [&FilePath; N]) -> (message:
    String)
    ensures
        message@ == sanitized(stderr@, path_bytes(paths@)),
        reads_faithfully(stderr@, path_bytes(paths@)),
        valid_utf8(stderr@) && are_utf8(path_bytes(paths@)) ==> message@ == report(
            decode_utf8(stderr@),
            decoded(path_bytes(paths@)),
        ),
        forall|i: int, j: int|
            #![trigger stderr@.take(i), stderr@.skip(j)]
            0 <= i <= j <= stderr@.len() && is_blank(stderr@.take(i)) && is_blank(stderr@.skip(j))
                ==> message@ == sanitized(stderr@.subrange(i, j), path_bytes(paths@)),
        is_blank(stderr@) && are_nonempty(path_bytes(paths@)) ==> message@ == fallback(),
{
    let said = text::read_lossy(stderr);
    assert(text::is_faithful(stderr@));
    let mut shown: Vec<String> = Vec::new();
    let mut i: usize = 0;
    while i < N
        invariant
            i <= N,
            paths@.len() == N,
            shown@.len() == i,
            forall|k: int| 0 <= k < i ==> (#[trigger] shown@[k])@ == text::lossy_text(paths@[k]@),
            forall|k: int| 0 <= k < i ==> text::is_faithful(#[trigger] path_bytes(paths@)[k]),
        decreases N - i,
    {
        let path = text::read_lossy(paths[i].bytes.as_slice());
        assert(text::is_faithful(paths@[i as int]@));
        shown.push(path);
        i += 1;
    }
    assert(texts(shown@) =~= path_texts(path_bytes(paths@)));
    proof {
        let given = path_bytes(paths@);
        if are_utf8(given) {
            assert forall|k: int| 0 <= k < N implies path_texts(given)[k] == decoded(given)[k] by {
                assert(valid_utf8(given[k]) && text::is_faithful(given[k]));
            }
            assert(path_texts(given) =~= decoded(given));
        }
        assert forall|i: int, j: int|
            #![trigger stderr@.take(i), stderr@.skip(j)]
            0 <= i <= j <= stderr@.len() && is_blank(stderr@.take(i)) && is_blank(
                stderr@.skip(j),
            ) implies sanitized(stderr@, given) == sanitized(stderr@.subrange(i, j), given) by {
            let lead = stderr@.take(i);
            let inner = stderr@.subrange(i, j);
            let trail = stderr@.skip(j);
            assert(lead + inner + trail =~= stderr@);
            white_space_around_is_not_reported(lead, inner, trail, given);
        }
        if is_blank(stderr@) && are_nonempty(given) {
            blank_output_gives_the_fallback(stderr@, given);
        }
    }
    make_report(said.as_str(), &shown)
}

/// Blank bytes are read as blank text.
proof fn lemma_blank(bytes: Seq<u8>)
    requires
        is_blank(bytes),
    ensures
        valid_utf8(bytes),
        text::is_blank(decode_utf8(bytes)),
{
    lemma_ascii_text(bytes);
}

/// White space around what the renderer said changes nothing in the report.
pub proof fn white_space_around_is_not_said(
    lead: Seq<char>,
    said: Seq<char>,
    trail: Seq<char>,
    paths: Seq<Seq<char>>,
)
    requires
        text::is_blank(lead),
        text::is_blank(trail),
    ensures
        report(lead + said + trail, paths) == report(said, paths),
{
    text::white_space_around_is_trimmed(lead, said, trail);
}

/// ASCII white space around what the renderer wrote changes nothing in the report, whatever bytes
/// it wrote.
pub proof fn white_space_around_is_not_reported(
    lead: Seq<u8>,
    stderr: Seq<u8>,
    trail: Seq<u8>,
    paths: Seq<Seq<u8>>,
)
    requires
        is_blank(lead),
        is_blank(trail),
        text::is_faithful(lead + stderr + trail),
    ensures
        sanitized(lead + stderr + trail, paths) == sanitized(stderr, paths),
{
    let whole = lead + stderr + trail;
    let i = lead.len() as int;
    let j = (lead.len() + stderr.len()) as int;
    assert(whole.take(i) =~= lead);
    assert(whole.skip(j) =~= trail);
    assert(whole.subrange(i, j) =~= stderr);
    lemma_blank(lead);
    lemma_blank(trail);
    white_space_around_is_not_said(
        decode_utf8(lead),
        text::lossy_text(stderr),
        decode_utf8(trail),
        path_texts(paths),
    );
}

/// A renderer that wrote nothing but white space is reported by the fallback, as long as no path
/// that it was given is empty.
pub proof fn blank_output_gives_the_fallback(stderr: Seq<u8>, paths: Seq<Seq<u8>>)
    requires
        is_blank(stderr),
        are_nonempty(paths),
        reads_faithfully(stderr, paths),
    ensures
        sanitized(stderr, paths) == fallback(),
{
    lemma_blank(stderr);
    let none = Seq::<char>::empty();
    let said = decode_utf8(stderr);
    assert(said + none + none =~= said);
    text::white_space_around_is_trimmed(said, none, none);
    assert(text::trim(none) =~= none);
    lemma_nothing_to_redact(path_texts(paths));
}

/// There is nothing to replace in an empty message.
proof fn lemma_nothing_to_redact(paths: Seq<Seq<char>>)
    requires
        forall|i: int| 0 <= i < paths.len() ==> (#[trigger] paths[i]).len() > 0,
    ensures
        redact(Seq::empty(), paths) == Seq::<char>::empty(),
    decreases paths.len(),
{
    if paths.len() > 0 {
        lemma_nothing_to_redact(paths.drop_last());
    }
}

/// Whether the end of `left` is the beginning of `right`.
pub open spec fn runs_into(left: Seq<char>, right: Seq<char>) -> bool {
    exists|k: int|
        0 < k <= left.len() && k <= right.len() && #[trigger] left.skip(left.len() - k)
            == right.take(k)
}

/// Whether `path` can be told from the words of a report: neither it nor the marker holds the
/// other, neither runs into the other, and it is not part of the fallback.
pub open spec fn is_distinct(path: Seq<char>) -> bool {
    &&& !text::occurs_in(path, marker())
    &&& !text::occurs_in(marker(), path)
    &&& !runs_into(path, marker())
    &&& !runs_into(marker(), path)
    &&& !text::occurs_in(path, fallback())
}

/// A distinct path is not empty.
proof fn lemma_distinct_nonempty(path: Seq<char>)
    requires
        is_distinct(path),
    ensures
        path.len() > 0,
{
    if path.len() == 0 {
        assert(marker().skip(0).take(0) =~= path);
        assert(text::starts_with(marker().skip(0), path));
    }
}

/// No end of a distinct path starts a text that starts with the marker.
proof fn lemma_marker_first(path: Seq<char>, at: int, rest: Seq<char>)
    requires
        is_distinct(path),
        0 <= at < path.len(),
    ensures
        !text::starts_with(marker() + rest, path.skip(at)),
{
    let tail = path.skip(at);
    let whole = marker() + rest;
    if text::starts_with(whole, tail) {
        if tail.len() <= marker().len() {
            let k = tail.len() as int;
            assert(whole.take(k) =~= marker().take(k));
            assert(path.skip(path.len() - k) == marker().take(k));
        } else {
            assert(tail.take(marker().len() as int) =~= marker()) by {
                assert forall|i: int| 0 <= i < marker().len() implies tail[i] == marker()[i] by {
                    assert(whole.take(tail.len() as int)[i] == whole[i]);
                }
            }
            assert(text::starts_with(path.skip(at), marker()));
        }
    }
}

/// Where an end of a distinct path starts a text with substitutions, it starts the text without
/// them, and nothing was substituted at its beginning.
proof fn lemma_start(message: Seq<char>, old_word: Seq<char>, path: Seq<char>, at: int)
    requires
        is_distinct(path),
        0 <= at < path.len(),
        text::starts_with(text::substitute(message, old_word, marker()), path.skip(at)),
    ensures
        text::starts_with(message, path.skip(at)),
        !text::starts_with(message, old_word),
    decreases message.len(),
{
    let tail = path.skip(at);
    let result = text::substitute(message, old_word, marker());
    if old_word.len() == 0 {
        if message.len() == 0 {
            assert(marker() + Seq::<char>::empty() =~= marker());
            lemma_marker_first(path, at, Seq::empty());
        } else {
            let rest = seq![message[0]] + text::substitute(message.skip(1), old_word, marker());
            assert(marker() + rest =~= result);
            lemma_marker_first(path, at, rest);
        }
    } else if message.len() > 0 {
        if text::starts_with(message, old_word) {
            lemma_marker_first(
                path,
                at,
                text::substitute(message.skip(old_word.len() as int), old_word, marker()),
            );
        } else {
            let rest = text::substitute(message.skip(1), old_word, marker());
            assert(result =~= seq![message[0]] + rest);
            assert(result.take(tail.len() as int)[0] == tail[0]);
            assert(message[0] == tail[0]);
            if at + 1 < path.len() {
                let shorter = path.skip(at + 1);
                assert(rest.take(shorter.len() as int) =~= shorter) by {
                    assert forall|i: int| 0 <= i < shorter.len() implies rest[i] == shorter[i] by {
                        assert(result.take(tail.len() as int)[i + 1] == tail[i + 1]);
                    }
                }
                lemma_start(message.skip(1), old_word, path, at + 1);
                assert(message.take(tail.len() as int) =~= tail) by {
                    assert forall|i: int| 0 <= i < tail.len() implies message[i] == tail[i] by {
                        if i > 0 {
                            assert(message.skip(1).take(shorter.len() as int)[i - 1]
                                == shorter[i - 1]);
                        }
                    }
                }
            } else {
                assert(message.take(tail.len() as int) =~= tail);
            }
        }
    }
}

/// A distinct path does not start within the marker.
proof fn lemma_within_marker(path: Seq<char>, at: int, rest: Seq<char>)
    requires
        is_distinct(path),
        0 <= at < marker().len(),
    ensures
        !text::starts_with((marker() + rest).skip(at), path),
{
    let whole = marker() + rest;
    lemma_distinct_nonempty(path);
    if text::starts_with(whole.skip(at), path) {
        let left = marker().len() - at;
        if path.len() <= left {
            assert(whole.skip(at).take(path.len() as int) =~= marker().skip(at).take(
                path.len() as int,
            ));
            assert(text::starts_with(marker().skip(at), path));
        } else {
            assert(marker().skip(marker().len() - left) =~= path.take(left)) by {
                assert forall|i: int| 0 <= i < left implies marker()[at + i] == path[i] by {
                    assert(whole.skip(at).take(path.len() as int)[i] == whole[at + i]);
                }
            }
        }
    }
}

/// A distinct path stands nowhere in a text in which it was replaced, and substitutions of another
/// word do not bring it in.
proof fn lemma_not_at(message: Seq<char>, old_word: Seq<char>, path: Seq<char>, at: int)
    requires
        is_distinct(path),
        old_word == path || !text::occurs_in(path, message),
        0 <= at <= text::substitute(message, old_word, marker()).len(),
    ensures
        !text::starts_with(text::substitute(message, old_word, marker()).skip(at), path),
    decreases message.len(),
{
    let result = text::substitute(message, old_word, marker());
    lemma_distinct_nonempty(path);
    assert(path.skip(0) =~= path);
    if old_word.len() == 0 {
        if message.len() == 0 {
            if at < marker().len() {
                assert(marker() + Seq::<char>::empty() =~= marker());
                lemma_within_marker(path, at, Seq::empty());
            }
        } else {
            let after = text::substitute(message.skip(1), old_word, marker());
            let rest = seq![message[0]] + after;
            assert(marker() + rest =~= result);
            if at < marker().len() {
                lemma_within_marker(path, at, rest);
            } else if at == marker().len() {
                assert(result.skip(at) =~= rest);
                if text::starts_with(rest, path) {
                    assert(rest.take(path.len() as int)[0] == message[0]);
                    if path.len() == 1 {
                        assert(message.skip(0).take(1) =~= path);
                        assert(text::starts_with(message.skip(0), path));
                    } else {
                        let tail = path.skip(1);
                        assert(after.take(tail.len() as int) =~= tail) by {
                            assert forall|i: int| 0 <= i < tail.len() implies after[i]
                                == tail[i] by {
                                assert(rest.take(path.len() as int)[i + 1] == path[i + 1]);
                            }
                        }
                        lemma_start(message.skip(1), old_word, path, 1);
                        assert(message.skip(1).take(0) =~= old_word);
                    }
                }
            } else {
                let inner = at - marker().len() - 1;
                assert(result.skip(at) =~= after.skip(inner));
                lemma_occurs_in_rest(path, message, 1);
                lemma_not_at(message.skip(1), old_word, path, inner);
            }
        }
    } else if message.len() == 0 {
    } else if text::starts_with(message, old_word) {
        let rest = message.skip(old_word.len() as int);
        let after = text::substitute(rest, old_word, marker());
        if at < marker().len() {
            lemma_within_marker(path, at, after);
        } else {
            assert(result.skip(at) =~= after.skip(at - marker().len()));
            lemma_occurs_in_rest(path, message, old_word.len() as int);
            lemma_not_at(rest, old_word, path, at - marker().len());
        }
    } else if at == 0 {
        assert(result.skip(0) =~= result);
        if text::starts_with(result, path) {
            lemma_start(message, old_word, path, 0);
            assert(message.skip(0) =~= message);
            assert(text::starts_with(message.skip(0), path));
        }
    } else {
        let after = text::substitute(message.skip(1), old_word, marker());
        assert(result.skip(at) =~= after.skip(at - 1));
        lemma_occurs_in_rest(path, message, 1);
        lemma_not_at(message.skip(1), old_word, path, at - 1);
    }
}

/// What stands in the rest of a text stands in the text.
proof fn lemma_occurs_in_rest(word: Seq<char>, message: Seq<char>, from: int)
    requires
        0 <= from <= message.len(),
    ensures
        text::occurs_in(word, message.skip(from)) ==> text::occurs_in(word, message),
{
    if text::occurs_in(word, message.skip(from)) {
        let i = choose|i: int|
            0 <= i <= message.skip(from).len() && #[trigger] text::starts_with(
                message.skip(from).skip(i),
                word,
            );
        assert(message.skip(from).skip(i) =~= message.skip(from + i));
    }
}

/// After redaction none of the distinct paths stands in the message.
proof fn lemma_redacted(message: Seq<char>, paths: Seq<Seq<char>>, i: int)
    requires
        0 <= i < paths.len(),
        is_distinct(paths[i]),
    ensures
        !text::occurs_in(paths[i], redact(message, paths)),
    decreases paths.len(),
{
    let before = redact(message, paths.drop_last());
    if i < paths.len() - 1 {
        assert(paths.drop_last()[i] == paths[i]);
        lemma_redacted(message, paths.drop_last(), i);
    }
    if text::occurs_in(paths[i], redact(message, paths)) {
        let at = choose|at: int|
            0 <= at <= redact(message, paths).len() && #[trigger] text::starts_with(
                redact(message, paths).skip(at),
                paths[i],
            );
        lemma_not_at(before, paths.last(), paths[i], at);
    }
}

/// No report echoes a path that the renderer was given, as long as that path can be told from the
/// words of the report.
pub proof fn report_echoes_no_path(said: Seq<char>, paths: Seq<Seq<char>>, i: int)
    requires
        0 <= i < paths.len(),
        is_distinct(paths[i]),
    ensures
        !text::occurs_in(paths[i], report(said, paths)),
{
    let path = paths[i];
    let message = redact(text::trim(said), paths);
    let short = shorten(message);
    lemma_redacted(text::trim(said), paths, i);
    if text::occurs_in(path, short) {
        let at = choose|at: int|
            0 <= at <= short.len() && #[trigger] text::starts_with(short.skip(at), path);
        assert(message.skip(at).take(path.len() as int) =~= short.skip(at).take(path.len() as int));
        assert(text::starts_with(message.skip(at), path));
    }
}

/// What the renderer wrote reaches a report without the paths that it was given, as long as these
/// can be told from the words of the report.
pub proof fn selected_paths_are_not_echoed(stderr: Seq<u8>, paths: Seq<Seq<u8>>, i: int)
    requires
        0 <= i < paths.len(),
        is_distinct(text::lossy_text(paths[i])),
    ensures
        !text::occurs_in(text::lossy_text(paths[i]), sanitized(stderr, paths)),
{
    report_echoes_no_path(text::lossy_text(stderr), path_texts(paths), i);
}

/// A report says something and is short.
pub proof fn report_is_short(stderr: Seq<u8>, paths: Seq<Seq<u8>>)
    ensures
        0 < sanitized(stderr, paths).len() <= 240,
{
    reveal_strlit("The ripple video could not be rendered.");
}

/// The character `c` with an upper-case ASCII letter made lower-case.
pub open spec fn lower(c: char) -> char {
    if 'A' <= c <= 'Z' {
        (c as u32 + 0x20) as char
    } else {
        c
    }
}

/// Whether `path` ends in a dot and `ending`, whatever the case of the letters.
pub open spec fn ends_in(path: Seq<char>, ending: Seq<char>) -> bool {
    &&& path.len() > ending.len()
    &&& path[path.len() - ending.len() - 1] == '.'
    &&& forall|i: int|
        0 <= i < ending.len() ==> lower(#[trigger] path[path.len() - ending.len() + i])
            == ending[i]
}

/// Whether `path` ends in the extension of an image or of a video.
pub open spec fn ends_as_media(path: Seq<char>) -> bool {
    ||| ends_in(path, "mp4"@)
    ||| exists|i: int|
        0 <= i < selection::image_extensions().len() && ends_in(
            path,
            #[trigger] selection::image_extensions()[i],
        )
}

/// The path of an image or a video, written from the root on, can be told from the words of a
/// report unless it holds the marker.
pub proof fn media_path_is_distinct(path: Seq<char>)
    requires
        path.len() > 0,
        path[0] == '/',
        ends_as_media(path),
        !text::occurs_in(marker(), path),
    ensures
        is_distinct(path),
{
    reveal_strlit("selected file");
    reveal_strlit("The ripple video could not be rendered.");
    if text::occurs_in(path, marker()) {
        let i = choose|i: int|
            0 <= i <= marker().len() && #[trigger] text::starts_with(marker().skip(i), path);
        assert(marker().skip(i).take(path.len() as int)[0] == marker()[i]);
    }
    if text::occurs_in(path, fallback()) {
        let i = choose|i: int|
            0 <= i <= fallback().len() && #[trigger] text::starts_with(fallback().skip(i), path);
        assert(fallback().skip(i).take(path.len() as int)[0] == fallback()[i]);
    }
    if runs_into(marker(), path) {
        let k = choose|k: int|
            0 < k <= marker().len() && k <= path.len() && #[trigger] marker().skip(
                marker().len() - k,
            ) == path.take(k);
        assert(marker().skip(marker().len() - k)[0] == path.take(k)[0]);
    }
    if runs_into(path, marker()) {
        let k = choose|k: int|
            0 < k <= path.len() && k <= marker().len() && #[trigger] path.skip(path.len() - k)
                == marker().take(k);
        lemma_media_ends(path);
        assert(path.skip(path.len() - k)[k - 1] == marker()[k - 1]);
        if k > 1 {
            assert(path.skip(path.len() - k)[k - 2] == marker()[k - 2]);
        }
    }
}

/// The last two characters of the path of an image or a video.
proof fn lemma_media_ends(path: Seq<char>)
    requires
        ends_as_media(path),
    ensures
        path.len() > 2,
        ({
            let last = lower(path.last());
            let previous = lower(path[path.len() - 2]);
            ||| last == '4' || last == 'g'
            ||| last == 'c' && previous == 'i'
            ||| last == 'f' && (previous == 'i' || previous == 'f')
        }),
{
    reveal_strlit("mp4");
    reveal_strlit("png");
    reveal_strlit("jpg");
    reveal_strlit("jpeg");
    reveal_strlit("heic");
    reveal_strlit("heif");
    reveal_strlit("tif");
    reveal_strlit("tiff");
    if ends_in(path, "mp4"@) {
        assert(lower(path[path.len() - 3 + 2]) == '4');
    } else {
        let i = choose|i: int|
            0 <= i < selection::image_extensions().len() && ends_in(
                path,
                #[trigger] selection::image_extensions()[i],
            );
        let ending = selection::image_extensions()[i];
        assert(ending.len() >= 3);
        assert(lower(path[path.len() - ending.len() + (ending.len() - 1)]) == ending.last());
        assert(lower(path[path.len() - ending.len() + (ending.len() - 2)])
            == ending[ending.len() - 2]);
    }
}

/// ASCII bytes are UTF-8 and stand for themselves.
proof fn lemma_ascii_text(bytes: Seq<u8>)
    requires
        forall|i: int| 0 <= i < bytes.len() ==> #[trigger] bytes[i] < 0x80,
    ensures
        valid_utf8(bytes),
        decode_utf8(bytes) == Seq::new(bytes.len(), |i: int| bytes[i] as char),
{
    let chars = Seq::new(bytes.len(), |i: int| bytes[i] as char);
    assert(is_ascii_chars(chars));
    is_ascii_chars_encode_utf8(chars);
    assert(encode_utf8(chars) =~= bytes);
    encode_utf8_valid_utf8(chars);
    encode_utf8_decode_utf8(chars);
}

/// A text whose last part is the text of the end of `path`, from a dot and `ending` on, ends in a
/// dot and the word that `ending` spells.
proof fn lemma_text_ends_in(path: Seq<u8>, ending: Seq<u8>, word: Seq<char>, head: Seq<char>)
    requires
        path.len() > ending.len(),
        path[path.len() - ending.len() - 1] == path::DOT,
        path.skip(path.len() - ending.len()) == ending,
        text::spells(ending, word),
        is_ascii_chars(word),
    ensures
        valid_utf8(path.skip(path.len() - ending.len() - 1)),
        ends_in(head + decode_utf8(path.skip(path.len() - ending.len() - 1)), word),
{
    let tail = path.skip(path.len() - ending.len() - 1);
    assert forall|i: int| 0 <= i < ending.len() implies #[trigger] ending[i] < 0x80 by {
        assert(ascii_spelling(ending[i], word[i]));
    }
    assert forall|i: int| 0 <= i < tail.len() implies #[trigger] tail[i] < 0x80 by {
        if i > 0 {
            assert(tail[i] == path.skip(path.len() - ending.len())[i - 1]);
        }
    }
    lemma_ascii_text(tail);
    let shown = head + decode_utf8(tail);
    assert forall|i: int| 0 <= i < word.len() implies lower(
        #[trigger] shown[shown.len() - word.len() + i],
    ) == word[i] by {
        assert(shown[shown.len() - word.len() + i] == tail[i + 1] as char);
        assert(tail[i + 1] == path.skip(path.len() - ending.len())[i]);
        assert(ascii_spelling(ending[i], word[i]));
    }
}

/// Whether the byte `b` spells the character `c`.
spec fn ascii_spelling(b: u8, c: char) -> bool {
    text::ascii_lower(b) as char == c
}

/// Where the extension of a path from the root to an image or a video starts, with its dot. A
/// text whose last part is the text of the path from there on ends as such paths do.
proof fn lemma_media_tail(path: Seq<u8>, head: Seq<char>) -> (at: int)
    requires
        path::is_rooted(path),
        path::through_last_name(path) == path,
        selection::is_image_path(path) || output::is_video_path(path),
    ensures
        at == path.len() - path::extension(path)->0.len() - 1,
        0 < at < path.len(),
        path[at] == path::DOT,
        valid_utf8(path.skip(at)),
        ends_as_media(head + decode_utf8(path.skip(at))),
{
    path::extension_is_at_end(path);
    let ending = path::extension(path)->0;
    reveal_strlit("mp4");
    reveal_strlit("png");
    reveal_strlit("jpg");
    reveal_strlit("jpeg");
    reveal_strlit("heic");
    reveal_strlit("heif");
    reveal_strlit("tif");
    reveal_strlit("tiff");
    if output::is_video_path(path) {
        lemma_text_ends_in(path, ending, "mp4"@, head);
    } else {
        let i = choose|i: int|
            0 <= i < selection::image_extensions().len() && text::spells(
                ending,
                #[trigger] selection::image_extensions()[i],
            );
        assert(is_ascii_chars(selection::image_extensions()[i]));
        lemma_text_ends_in(path, ending, selection::image_extensions()[i], head);
    }
    path.len() - ending.len() - 1
}

/// What a path from the root to an image or a video is read as can be told from the words of a
/// report unless it holds the marker. The path need not be UTF-8.
pub proof fn media_path_text_is_distinct(path: Seq<u8>)
    requires
        text::is_faithful(path),
        path::is_rooted(path),
        path::through_last_name(path) == path,
        selection::is_image_path(path) || output::is_video_path(path),
        !text::occurs_in(marker(), text::lossy_text(path)),
    ensures
        is_distinct(text::lossy_text(path)),
{
    let root = path.take(1);
    lemma_ascii_text(root);
    let at = lemma_media_tail(path, Seq::empty());
    let head = decode_utf8(root) + text::lossy_text(path.subrange(1, at));
    lemma_media_tail(path, head);
    assert(text::lossy_text(path) == head + decode_utf8(path.skip(at)));
    media_path_is_distinct(text::lossy_text(path));
}

/// No report echoes a path from the root to an image or a video that the renderer was given, be it
/// without the marker in it. Neither the path nor what the renderer wrote need be UTF-8.
pub proof fn media_paths_are_not_echoed(stderr: Seq<u8>, paths: Seq<Seq<u8>>, i: int)
    requires
        0 <= i < paths.len(),
        text::is_faithful(paths[i]),
        path::is_rooted(paths[i]),
        path::through_last_name(paths[i]) == paths[i],
        selection::is_image_path(paths[i]) || output::is_video_path(paths[i]),
        !text::occurs_in(marker(), text::lossy_text(paths[i])),
    ensures
        !text::occurs_in(text::lossy_text(paths[i]), sanitized(stderr, paths)),
{
    media_path_text_is_distinct(paths[i]);
    selected_paths_are_not_echoed(stderr, paths, i);
}

/// The text of a path from the root to an image or a video, be it UTF-8, can be told from the
/// words of a report unless it holds the marker.
pub proof fn utf8_media_path_is_distinct(path: Seq<u8>)
    requires
        valid_utf8(path),
        path::is_rooted(path),
        path::through_last_name(path) == path,
        selection::is_image_path(path) || output::is_video_path(path),
        !text::occurs_in(marker(), decode_utf8(path)),
    ensures
        is_distinct(decode_utf8(path)),
{
    assert(0x2fu8 & 0x7f == 0x2f) by (bit_vector);
    assert(decode_first_scalar(path) == 0x2f);
    let at = lemma_media_tail(path, Seq::empty());
    is_char_boundary_iff_not_is_continuation_byte(path, at);
    decode_utf8_split(path, at);
    lemma_media_tail(path, decode_utf8(path.subrange(0, at)));
    assert(path.subrange(at, path.len() as int) =~= path.skip(at));
    media_path_is_distinct(decode_utf8(path));
}

/// No report that is made of texts echoes the text of a path from the root to an image or a video,
/// be it UTF-8 and without the marker in it.
pub proof fn utf8_media_paths_are_not_echoed(said: Seq<char>, paths: Seq<Seq<u8>>, i: int)
    requires
        0 <= i < paths.len(),
        valid_utf8(paths[i]),
        path::is_rooted(paths[i]),
        path::through_last_name(paths[i]) == paths[i],
        selection::is_image_path(paths[i]) || output::is_video_path(paths[i]),
        !text::occurs_in(marker(), decode_utf8(paths[i])),
    ensures
        !text::occurs_in(decode_utf8(paths[i]), report(said, decoded(paths))),
{
    utf8_media_path_is_distinct(paths[i]);
    report_echoes_no_path(said, decoded(paths), i);
}

/// Paths are put out of a message one after the other: to put out some and then some more is to
/// put out all of them, in this order.
pub proof fn paths_are_put_out_in_turn(
    message: Seq<char>,
    first: Seq<Seq<char>>,
    then_these: Seq<Seq<char>>,
)
    ensures
        redact(message, Seq::empty()) == message,
        redact(message, first + then_these) == redact(redact(message, first), then_these),
    decreases then_these.len(),
{
    let all = first + then_these;
    if then_these.len() == 0 {
        assert(all =~= first);
    } else {
        paths_are_put_out_in_turn(message, first, then_these.drop_last());
        assert(all.drop_last() =~= first + then_these.drop_last());
        assert(all.last() == then_these.last());
    }
}

/// Where a path stands in a message for the first time, the words `selected file` stand instead;
/// what is before it stays, and what is behind it is gone through likewise.
pub proof fn path_gives_way_to_the_marker(head: Seq<char>, path: Seq<char>, rest: Seq<char>)
    requires
        path.len() > 0,
        forall|i: int|
            0 <= i < head.len() ==> !#[trigger] text::starts_with(
                (head + path + rest).skip(i),
                path,
            ),
    ensures
        redact(head + path + rest, seq![path]) == head + "selected file"@ + redact(
            rest,
            seq![path],
        ),
{
    let message = head + path + rest;
    assert(seq![path].drop_last() =~= Seq::empty());
    assert(redact(message, Seq::empty()) == message);
    assert(redact(rest, Seq::empty()) == rest);
    text::first_place_of_the_word_is_replaced(head, path, rest, marker());
}

/// A message in which none of the paths stands stays as it is.
pub proof fn message_without_paths_stays(message: Seq<char>, paths: Seq<Seq<char>>)
    requires
        forall|i: int|
            0 <= i < paths.len() ==> (#[trigger] paths[i]).len() > 0 && !text::occurs_in(
                paths[i],
                message,
            ),
    ensures
        redact(message, paths) == message,
    decreases paths.len(),
{
    if paths.len() > 0 {
        assert(paths.last() == paths[paths.len() - 1]);
        assert forall|i: int| 0 <= i < paths.drop_last().len() implies (
        #[trigger] paths.drop_last()[i]).len() > 0 && !text::occurs_in(
            paths.drop_last()[i],
            message,
        ) by {
            assert(paths.drop_last()[i] == paths[i]);
        }
        message_without_paths_stays(message, paths.drop_last());
        text::text_without_the_word_stays(message, paths.last(), marker());
    }
}

/// A report is what is left of the trimmed message when the paths are put out of it, up to its
/// first 240 characters; where nothing is left it is a fixed sentence.
pub proof fn report_is_the_beginning_of_what_is_left(said: Seq<char>, paths: Seq<Seq<char>>)
    ensures
        ({
            let left = redact(text::trim(said), paths);
            &&& left.len() == 0 ==> report(said, paths)
                == "The ripple video could not be rendered."@
            &&& 0 < left.len() <= 240 ==> report(said, paths) == left
            &&& left.len() > 240 ==> report(said, paths) == left.take(240)
        }),
{
}

/// A message without paths in it, bare and short, is reported as it is.
pub proof fn plain_message_is_reported(said: Seq<char>, paths: Seq<Seq<char>>)
    requires
        text::trim(said) == said,
        0 < said.len() <= 240,
        forall|i: int|
            0 <= i < paths.len() ==> (#[trigger] paths[i]).len() > 0 && !text::occurs_in(
                paths[i],
                said,
            ),
    ensures
        report(said, paths) == said,
{
    message_without_paths_stays(said, paths);
}

/// What the renderer wrote is reported from its text and the texts of the paths, each path with its
/// own, in the order in which they were given.
pub proof fn bytes_are_reported_as_text(stderr: Seq<u8>, paths: Seq<Seq<u8>>)
    ensures
        path_texts(paths).len() == paths.len(),
        forall|i: int|
            0 <= i < paths.len() ==> #[trigger] path_texts(paths)[i] == text::lossy_text(paths[i]),
        decoded(paths).len() == paths.len(),
        forall|i: int|
            0 <= i < paths.len() ==> #[trigger] decoded(paths)[i] == decode_utf8(paths[i]),
        ({
            let left = redact(text::trim(text::lossy_text(stderr)), path_texts(paths));
            sanitized(stderr, paths) == if left.len() == 0 {
                "The ripple video could not be rendered."@
            } else if left.len() <= 240 {
                left
            } else {
                left.take(240)
            }
        }),
{
    report_is_the_beginning_of_what_is_left(text::lossy_text(stderr), path_texts(paths));
}

/// Strings and paths are seen one by one.
pub proof fn lists_are_seen_one_by_one(strings: Seq<String>, paths: Seq<&FilePath>)
    ensures
        texts(strings).len() == strings.len(),
        forall|i: int| 0 <= i < strings.len() ==> #[trigger] texts(strings)[i] == strings[i]@,
        path_bytes(paths).len() == paths.len(),
        forall|i: int| 0 <= i < paths.len() ==> #[trigger] path_bytes(paths)[i] == paths[i].bytes@,
        marker() == "selected file"@,
        fallback() == "The ripple video could not be rendered."@,
{
}

} // verus!
