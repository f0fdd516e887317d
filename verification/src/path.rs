//! Paths of the file system, as the bytes that name them.
//!
//! A path is cut into pieces at its separators. The names in it are the pieces that are neither
//! empty nor a single dot; paths with the same names and the same beginning are the same path.
use crate::text;
use vstd::prelude::*;
use vstd::utf8::*;

verus! {

/// The byte between two pieces of a path: a slash.
pub const SEPARATOR: u8 = 0x2f;

/// The byte before an extension: a full stop.
pub const DOT: u8 = 0x2e;

/// A path of the file system. Its bytes need not be UTF-8.
#[derive(Debug)]
pub struct FilePath {
    pub bytes: Vec<u8>,
}

impl View for FilePath {
    type V = Seq<u8>;

    open spec fn view(&self) -> Seq<u8> {
        self.bytes@
    }
}

impl Clone for FilePath {
    fn clone(&self) -> (copy: Self)
        ensures
            copy@ == self@,
    {
        FilePath { bytes: self.bytes.clone() }
    }
}

/// The pieces of `path` between its separators.
pub open spec fn pieces(path: Seq<u8>) -> Seq<Seq<u8>>
    decreases path.len(),
{
    if path.len() == 0 {
        seq![path]
    } else if path.last() == SEPARATOR {
        pieces(path.drop_last()).push(Seq::empty())
    } else {
        let before = pieces(path.drop_last());
        before.drop_last().push(before.last().push(path.last()))
    }
}

/// Whether a piece names something: it is neither empty nor the single dot.
pub open spec fn is_name(piece: Seq<u8>) -> bool {
    piece.len() > 0 && piece != seq![DOT]
}

/// The names in `path`, in order.
pub open spec fn names(path: Seq<u8>) -> Seq<Seq<u8>> {
    pieces(path).filter(|piece: Seq<u8>| is_name(piece))
}

/// Whether `path` starts at the root.
pub open spec fn is_rooted(path: Seq<u8>) -> bool {
    path.len() > 0 && path[0] == SEPARATOR
}

/// Whether `path` starts with a dot that stands for the working directory.
pub open spec fn is_dotted(path: Seq<u8>) -> bool {
    pieces(path)[0] == seq![DOT]
}

/// Whether two paths are equal: they begin alike and hold the same names.
pub open spec fn same_path(left: Seq<u8>, right: Seq<u8>) -> bool {
    &&& is_rooted(left) == is_rooted(right)
    &&& is_dotted(left) == is_dotted(right)
    &&& names(left) == names(right)
}

/// `path` without what follows its last name.
pub open spec fn through_last_name(path: Seq<u8>) -> Seq<u8>
    decreases path.len(),
{
    if path.len() == 0 || is_name(pieces(path).last()) {
        path
    } else {
        through_last_name(path.drop_last())
    }
}

/// The name that `path` ends in. There is none where it ends in two dots, which lead back.
pub open spec fn file_name(path: Seq<u8>) -> Option<Seq<u8>> {
    if names(path).len() > 0 && names(path).last() != seq![DOT, DOT] {
        Some(names(path).last())
    } else {
        None
    }
}

/// `path` without its last name. Neither the root nor the empty path has a parent.
pub open spec fn parent(path: Seq<u8>) -> Option<Seq<u8>> {
    let beginning: int = if is_rooted(path) || is_dotted(path) {
        1
    } else {
        0
    };
    if names(path).len() > 0 {
        let whole = through_last_name(path);
        let rest = whole.take(whole.len() - names(path).last().len());
        if names(rest).len() > 0 {
            Some(through_last_name(rest))
        } else {
            Some(path.take(beginning))
        }
    } else if is_dotted(path) {
        Some(Seq::empty())
    } else {
        None
    }
}

/// The position of the last dot in `name`, or -1.
pub open spec fn last_dot(name: Seq<u8>) -> int
    decreases name.len(),
{
    if name.len() == 0 {
        -1
    } else if name.last() == DOT {
        name.len() - 1
    } else {
        last_dot(name.drop_last())
    }
}

/// What follows the last dot of the file name. A dot that the name starts with does not count.
pub open spec fn extension(path: Seq<u8>) -> Option<Seq<u8>> {
    match file_name(path) {
        Some(name) => if last_dot(name) > 0 {
            Some(name.skip(last_dot(name) + 1))
        } else {
            None
        },
        None => None,
    }
}

/// What stands before the extension of `name`, or all of it.
pub open spec fn stem(name: Seq<u8>) -> Seq<u8> {
    if last_dot(name) > 0 {
        name.take(last_dot(name))
    } else {
        name
    }
}

/// `path` with `ending` as the extension of its file name, or without an extension where `ending`
/// is empty. What follows the file name goes; a path without a file name stays as it is.
pub open spec fn with_extension(path: Seq<u8>, ending: Seq<u8>) -> Seq<u8> {
    match file_name(path) {
        Some(name) => {
            let whole = through_last_name(path);
            let bare = whole.take(whole.len() - name.len()) + stem(name);
            if ending.len() > 0 {
                bare + seq![DOT] + ending
            } else {
                bare
            }
        },
        None => path,
    }
}

/// `tail` in the folder `base`. A `tail` that starts at the root stands for itself.
pub open spec fn joined(base: Seq<u8>, tail: Seq<u8>) -> Seq<u8> {
    if is_rooted(tail) {
        tail
    } else if base.len() == 0 || base.last() == SEPARATOR {
        base + tail
    } else {
        base.push(SEPARATOR) + tail
    }
}

/// A path has at least one piece.
proof fn lemma_pieces_nonempty(path: Seq<u8>)
    ensures
        pieces(path).len() > 0,
    decreases path.len(),
{
    if path.len() > 0 {
        lemma_pieces_nonempty(path.drop_last());
    }
}

/// The last piece of the first `end` bytes starts behind their last separator.
proof fn lemma_last_piece(path: Seq<u8>, start: int, end: int)
    requires
        0 <= start <= end <= path.len(),
        start == 0 || path[start - 1] == SEPARATOR,
        forall|k: int| start <= k < end ==> path[k] != SEPARATOR,
    ensures
        pieces(path.take(end)) == pieces(path.take(start)).drop_last().push(
            path.subrange(start, end),
        ),
        pieces(path.take(start)).last() == Seq::<u8>::empty(),
    decreases end - start,
{
    lemma_pieces_nonempty(path.take(start));
    if start > 0 {
        assert(path.take(start).last() == SEPARATOR);
    }
    assert(pieces(path.take(start)).last() =~= Seq::<u8>::empty());
    if start == end {
        assert(path.subrange(start, end) =~= Seq::<u8>::empty());
        assert(pieces(path.take(start)).drop_last().push(Seq::<u8>::empty()) =~= pieces(
            path.take(start),
        ));
    } else {
        lemma_last_piece(path, start, end - 1);
        assert(path.take(end).drop_last() =~= path.take(end - 1));
        assert(path.subrange(start, end) =~= path.subrange(start, end - 1).push(path[end - 1]));
        assert(pieces(path.take(end)) =~= pieces(path.take(start)).drop_last().push(
            path.subrange(start, end),
        ));
    }
}

/// What `names` makes of one more piece.
proof fn lemma_filter_push(before: Seq<Seq<u8>>, piece: Seq<u8>)
    ensures
        before.push(piece).filter(|piece: Seq<u8>| is_name(piece)) == if is_name(piece) {
            before.filter(|piece: Seq<u8>| is_name(piece)).push(piece)
        } else {
            before.filter(|piece: Seq<u8>| is_name(piece))
        },
{
    reveal(Seq::filter);
    assert(before.push(piece).drop_last() =~= before);
}

/// The names in the first `end` bytes, where the last piece of them starts at `start`.
proof fn lemma_last_name(path: Seq<u8>, start: int, end: int)
    requires
        0 <= start <= end <= path.len(),
        start == 0 || path[start - 1] == SEPARATOR,
        forall|k: int| start <= k < end ==> path[k] != SEPARATOR,
    ensures
        pieces(path.take(end)).last() == path.subrange(start, end),
        names(path.take(end)) == if is_name(path.subrange(start, end)) {
            names(path.take(start)).push(path.subrange(start, end))
        } else {
            names(path.take(start))
        },
{
    lemma_last_piece(path, start, end);
    lemma_pieces_nonempty(path.take(start));
    let before = pieces(path.take(start)).drop_last();
    assert(before.push(Seq::<u8>::empty()) =~= pieces(path.take(start)));
    lemma_filter_push(before, Seq::<u8>::empty());
    lemma_filter_push(before, path.subrange(start, end));
}

/// Finds the last name in the first `end` bytes: where it starts and where it ends.
fn find_last_name(bytes: &Vec<u8>, end: usize) -> (found: Option<(usize, usize)>)
    requires
        end <= bytes@.len(),
    ensures
        match found {
            Some((start, stop)) => {
                &&& start < stop <= end
                &&& is_name(bytes@.subrange(start as int, stop as int))
                &&& names(bytes@.take(end as int)) == names(bytes@.take(start as int)).push(
                    bytes@.subrange(start as int, stop as int),
                )
                &&& through_last_name(bytes@.take(end as int)) == bytes@.take(stop as int)
                &&& start == 0 || bytes@[start - 1] == SEPARATOR
                &&& forall|k: int| start <= k < stop ==> bytes@[k] != SEPARATOR
            },
            None => names(bytes@.take(end as int)).len() == 0,
        },
{
    let ghost path = bytes@;
    let mut stop: usize = end;
    while stop > 0
        invariant
            path == bytes@,
            stop <= end <= path.len(),
            names(path.take(stop as int)) == names(path.take(end as int)),
            through_last_name(path.take(stop as int)) == through_last_name(path.take(end as int)),
        decreases stop,
    {
        let mut start: usize = stop;
        while start > 0 && bytes[start - 1] != SEPARATOR
            invariant
                path == bytes@,
                start <= stop <= path.len(),
                forall|k: int| start <= k < stop ==> path[k] != SEPARATOR,
            decreases start,
        {
            start -= 1;
        }
        proof {
            lemma_last_name(path, start as int, stop as int);
        }
        if stop > start && (stop - start > 1 || bytes[start] != DOT) {
            proof {
                let piece = path.subrange(start as int, stop as int);
                assert(piece.len() != seq![DOT].len() || piece[0] != seq![DOT][0]);
            }
            return Some((start, stop));
        }
        proof {
            let piece = path.subrange(start as int, stop as int);
            if stop > start {
                assert(piece =~= seq![DOT]);
                lemma_last_name(path, start as int, start as int);
            } else {
                let before = path.take(stop as int);
                assert(before.last() == SEPARATOR);
                assert(before.drop_last() =~= path.take(stop - 1));
                lemma_filter_push(pieces(path.take(stop - 1)), Seq::<u8>::empty());
            }
            assert(path.take(stop as int).drop_last() =~= path.take(stop - 1));
        }
        stop -= 1;
    }
    proof {
        reveal(Seq::filter);
        let none = path.take(0);
        assert(pieces(none) =~= Seq::<Seq<u8>>::empty().push(none));
        lemma_filter_push(Seq::<Seq<u8>>::empty(), none);
    }
    None
}

/// The first piece of a path ends before its first separator.
proof fn lemma_first_piece(path: Seq<u8>, end: int)
    requires
        0 <= end <= path.len(),
        end == path.len() || path[end] == SEPARATOR,
        forall|k: int| 0 <= k < end ==> path[k] != SEPARATOR,
    ensures
        pieces(path)[0] == path.take(end),
        end == path.len() ==> pieces(path).len() == 1,
    decreases path.len(),
{
    if path.len() > 0 {
        let before = path.drop_last();
        lemma_pieces_nonempty(before);
        if end == path.len() {
            lemma_first_piece(before, end - 1);
            assert(pieces(path)[0] =~= path.take(end));
        } else {
            lemma_first_piece(before, end);
            assert(before.take(end) =~= path.take(end));
            if path.last() != SEPARATOR && pieces(before).len() == 1 {
                lemma_many_pieces(before, end);
            }
        }
    } else {
        assert(path.take(end) =~= path);
    }
}

/// A path that holds a separator has more than one piece.
proof fn lemma_many_pieces(path: Seq<u8>, at: int)
    requires
        0 <= at < path.len(),
        path[at] == SEPARATOR,
    ensures
        pieces(path).len() > 1,
    decreases path.len(),
{
    lemma_pieces_nonempty(path.drop_last());
    if at < path.len() - 1 {
        lemma_many_pieces(path.drop_last(), at);
    }
}

/// A path is dotted where it is a dot or starts with a dot and a separator.
proof fn lemma_is_dotted(path: Seq<u8>)
    ensures
        is_dotted(path) <==> path.len() > 0 && path[0] == DOT && (path.len() == 1 || path[1]
            == SEPARATOR),
{
    let dot = seq![DOT];
    if path.len() > 0 && path[0] == DOT && (path.len() == 1 || path[1] == SEPARATOR) {
        lemma_first_piece(path, 1);
        assert(path.take(1) =~= dot);
    } else {
        let end = first_separator(path, 0);
        lemma_first_separator(path, 0);
        lemma_first_piece(path, end);
        if path.take(end) == dot {
            assert(path.take(end).len() == dot.len());
            assert(path.take(end)[0] == dot[0]);
        }
    }
}

/// The position of the first separator from `at` on, or the length of `path`.
spec fn first_separator(path: Seq<u8>, at: int) -> int
    decreases path.len() - at,
{
    if at < 0 || at >= path.len() || path[at] == SEPARATOR {
        at
    } else {
        first_separator(path, at + 1)
    }
}

proof fn lemma_first_separator(path: Seq<u8>, at: int)
    requires
        0 <= at <= path.len(),
    ensures
        at <= first_separator(path, at) <= path.len(),
        first_separator(path, at) < path.len() ==> path[first_separator(path, at)] == SEPARATOR,
        forall|k: int| at <= k < first_separator(path, at) ==> path[k] != SEPARATOR,
    decreases path.len() - at,
{
    if at < path.len() && path[at] != SEPARATOR {
        lemma_first_separator(path, at + 1);
    }
}

/// The bytes of `path` from `start` to `stop`.
fn part(path: &FilePath, start: usize, stop: usize) -> (bytes: Vec<u8>)
    requires
        start <= stop <= path@.len(),
    ensures
        bytes@ == path@.subrange(start as int, stop as int),
{
    vstd::slice::slice_to_vec(vstd::slice::slice_subrange(path.bytes.as_slice(), start, stop))
}

impl FilePath {
    /// The path that `text` names.
    pub fn from_text(text: &str) -> (path: FilePath)
        ensures
            path@ == encode_utf8(text@),
    {
        FilePath { bytes: vstd::slice::slice_to_vec(text.as_bytes()) }
    }

    fn starts_at_root(&self) -> (answer: bool)
        ensures
            answer == is_rooted(self@),
    {
        self.bytes.len() > 0 && self.bytes[0] == SEPARATOR
    }

    fn starts_with_dot(&self) -> (answer: bool)
        ensures
            answer == is_dotted(self@),
    {
        proof {
            lemma_is_dotted(self@);
        }
        self.bytes.len() > 0 && self.bytes[0] == DOT && (self.bytes.len() == 1 || self.bytes[1]
            == SEPARATOR)
    }

    /// Where the file name starts and ends.
    fn find_file_name(&self) -> (found: Option<(usize, usize)>)
        ensures
            match found {
                Some((start, stop)) => {
                    &&& start < stop <= self@.len()
                    &&& file_name(self@) == Some(self@.subrange(start as int, stop as int))
                    &&& through_last_name(self@) == self@.take(stop as int)
                },
                None => file_name(self@) is None,
            },
    {
        let end = self.bytes.len();
        assert(self@.take(end as int) =~= self@);
        match find_last_name(&self.bytes, end) {
            Some((start, stop)) => {
                let ghost name = self@.subrange(start as int, stop as int);
                let ghost back = seq![DOT, DOT];
                if stop - start == 2 && self.bytes[start] == DOT && self.bytes[start + 1] == DOT {
                    assert(name =~= back);
                    None
                } else {
                    assert(name.len() != back.len() || name[0] != back[0] || name[1] != back[1]);
                    Some((start, stop))
                }
            },
            None => None,
        }
    }

    /// The name that the path ends in.
    pub fn file_name(&self) -> (name: Option<Vec<u8>>)
        ensures
            text::option_view(name) == file_name(self@),
    {
        match self.find_file_name() {
            Some((start, stop)) => Some(part(self, start, stop)),
            None => None,
        }
    }

    /// The extension of the file name.
    pub fn extension(&self) -> (ending: Option<Vec<u8>>)
        ensures
            text::option_view(ending) == extension(self@),
    {
        match self.find_file_name() {
            Some((start, stop)) => {
                let ghost name = self@.subrange(start as int, stop as int);
                let dot = find_last_dot(&self.bytes, start, stop);
                if dot < stop && dot > start {
                    assert(name.skip(dot - start + 1) =~= self@.subrange(dot + 1, stop as int));
                    Some(part(self, dot + 1, stop))
                } else {
                    None
                }
            },
            None => None,
        }
    }

    /// The path without its last name.
    pub fn parent(&self) -> (folder: Option<FilePath>)
        ensures
            text::option_view(folder) == parent(self@),
    {
        let end = self.bytes.len();
        assert(self@.take(end as int) =~= self@);
        match find_last_name(&self.bytes, end) {
            Some((start, stop)) => {
                let ghost whole = through_last_name(self@);
                assert(whole.take(whole.len() - names(self@).last().len()) =~= self@.take(
                    start as int,
                ));
                let cut: usize = match find_last_name(&self.bytes, start) {
                    Some((_, previous)) => previous,
                    None => if self.starts_at_root() || self.starts_with_dot() {
                        1
                    } else {
                        0
                    },
                };
                assert(self@.subrange(0, cut as int) =~= self@.take(cut as int));
                Some(FilePath { bytes: part(self, 0, cut) })
            },
            None => if self.starts_with_dot() {
                Some(FilePath { bytes: Vec::new() })
            } else {
                None
            },
        }
    }

    /// The path of `tail` in this folder.
    pub fn join(&self, tail: &FilePath) -> (path: FilePath)
        ensures
            path@ == joined(self@, tail@),
    {
        if tail.starts_at_root() {
            return tail.clone();
        }
        let mut path = self.clone();
        let length = path.bytes.len();
        if length > 0 && path.bytes[length - 1] != SEPARATOR {
            path.bytes.push(SEPARATOR);
        }
        let mut tail_bytes = tail.bytes.clone();
        path.bytes.append(&mut tail_bytes);
        path
    }

    /// Gives the file name the extension `ending`, or none where `ending` is empty.
    pub fn set_extension(&mut self, ending: &str)
        requires
            !encode_utf8(ending@).contains(SEPARATOR),
        ensures
            final(self)@ == with_extension(old(self)@, encode_utf8(ending@)),
    {
        let ghost path = self@;
        match self.find_file_name() {
            Some((start, stop)) => {
                let ghost name = path.subrange(start as int, stop as int);
                let dot = find_last_dot(&self.bytes, start, stop);
                let cut = if dot < stop && dot > start {
                    dot
                } else {
                    stop
                };
                self.bytes.truncate(cut);
                let mut more = vstd::slice::slice_to_vec(ending.as_bytes());
                if more.len() > 0 {
                    self.bytes.push(DOT);
                    self.bytes.append(&mut more);
                }
                assert(path.take(cut as int) =~= path.take(start as int) + stem(name));
                assert(path.take(stop as int).take(stop - name.len()) =~= path.take(start as int));
                assert(self@ =~= with_extension(path, encode_utf8(ending@)));
            },
            None => {},
        }
    }

    /// Whether this path and `other` are equal.
    pub fn is_same(&self, other: &FilePath) -> (answer: bool)
        ensures
            answer == same_path(self@, other@),
    {
        if self.starts_at_root() != other.starts_at_root() || self.starts_with_dot()
            != other.starts_with_dot() {
            return false;
        }
        let mut left: usize = self.bytes.len();
        let mut right: usize = other.bytes.len();
        assert(self@.take(left as int) =~= self@);
        assert(other@.take(right as int) =~= other@);
        loop
            invariant
                left <= self@.len(),
                right <= other@.len(),
                names(self@) == names(other@) <==> names(self@.take(left as int)) == names(
                    other@.take(right as int),
                ),
                is_rooted(self@) == is_rooted(other@),
                is_dotted(self@) == is_dotted(other@),
            decreases left,
        {
            let ghost left_names = names(self@.take(left as int));
            let ghost right_names = names(other@.take(right as int));
            match (find_last_name(&self.bytes, left), find_last_name(&other.bytes, right)) {
                (Some((left_start, left_stop)), Some((right_start, right_stop))) => {
                    let left_name = part(self, left_start, left_stop);
                    let right_name = part(other, right_start, right_stop);
                    if !same_bytes(&left_name, &right_name) {
                        assert(left_names.last() != right_names.last());
                        return false;
                    }
                    proof {
                        let left_rest = names(self@.take(left_start as int));
                        let right_rest = names(other@.take(right_start as int));
                        assert(left_names.drop_last() =~= left_rest);
                        assert(right_names.drop_last() =~= right_rest);
                    }
                    left = left_start;
                    right = right_start;
                },
                (None, None) => {
                    assert(left_names =~= right_names);
                    return true;
                },
                _ => {
                    assert(left_names.len() != right_names.len());
                    return false;
                },
            }
        }
    }
}

/// Whether two byte strings are equal.
fn same_bytes(left: &Vec<u8>, right: &Vec<u8>) -> (answer: bool)
    ensures
        answer == (left@ == right@),
{
    if left.len() != right.len() {
        return false;
    }
    let mut i: usize = 0;
    while i < left.len()
        invariant
            i <= left@.len() == right@.len(),
            forall|k: int| 0 <= k < i ==> left@[k] == right@[k],
        decreases left@.len() - i,
    {
        if left[i] != right[i] {
            return false;
        }
        i += 1;
    }
    assert(left@ =~= right@);
    true
}

/// The position of the last dot between `start` and `stop`, or `stop`.
fn find_last_dot(bytes: &Vec<u8>, start: usize, stop: usize) -> (dot: usize)
    requires
        start <= stop <= bytes@.len(),
    ensures
        start <= dot <= stop,
        last_dot(bytes@.subrange(start as int, stop as int)) == if dot < stop {
            dot - start
        } else {
            -1
        },
{
    let ghost name = bytes@.subrange(start as int, stop as int);
    let mut at: usize = stop;
    assert(name.take(at - start) =~= name);
    while at > start
        invariant
            start <= at <= stop <= bytes@.len(),
            name == bytes@.subrange(start as int, stop as int),
            last_dot(name) == last_dot(name.take(at - start)),
        decreases at,
    {
        assert(name.take(at - start).last() == bytes@[at - 1]);
        if bytes[at - 1] == DOT {
            return at - 1;
        }
        assert(name.take(at - start).drop_last() =~= name.take(at - 1 - start));
        at -= 1;
    }
    stop
}

/// Whether `name` can be the name of a file: it names something in the folder that it is in.
pub open spec fn is_file_name(name: Seq<u8>) -> bool {
    &&& is_name(name)
    &&& name != seq![DOT, DOT]
    &&& !name.contains(SEPARATOR)
}

/// Where the last name of `path` starts and where it ends.
proof fn lemma_locate(path: Seq<u8>) -> (span: (int, int))
    requires
        names(path).len() > 0,
    ensures
        0 <= span.0 < span.1 <= path.len(),
        span.0 == 0 || path[span.0 - 1] == SEPARATOR,
        forall|k: int| span.0 <= k < span.1 ==> path[k] != SEPARATOR,
        is_name(path.subrange(span.0, span.1)),
        names(path) == names(path.take(span.0)).push(path.subrange(span.0, span.1)),
        through_last_name(path) == path.take(span.1),
    decreases path.len(),
{
    if path.len() == 0 {
        assert(pieces(path) =~= Seq::<Seq<u8>>::empty().push(path));
        reveal(Seq::filter);
        lemma_filter_push(Seq::<Seq<u8>>::empty(), path);
    }
    let start = last_piece_start(path);
    lemma_last_piece_start(path);
    assert(path.take(path.len() as int) =~= path);
    lemma_last_name(path, start, path.len() as int);
    if is_name(pieces(path).last()) {
        (start, path.len() as int)
    } else {
        let before = path.drop_last();
        if start < path.len() {
            assert(path.subrange(start, path.len() as int).len() == seq![DOT].len());
            assert(before =~= path.take(start));
        } else {
            lemma_filter_push(pieces(before), Seq::<u8>::empty());
        }
        let span = lemma_locate(before);
        assert(before.take(span.0) =~= path.take(span.0));
        assert(before.take(span.1) =~= path.take(span.1));
        assert(before.subrange(span.0, span.1) =~= path.subrange(span.0, span.1));
        span
    }
}

/// Where the last piece of `path` starts.
spec fn last_piece_start(path: Seq<u8>) -> int
    decreases path.len(),
{
    if path.len() == 0 || path.last() == SEPARATOR {
        path.len() as int
    } else {
        last_piece_start(path.drop_last())
    }
}

proof fn lemma_last_piece_start(path: Seq<u8>)
    ensures
        0 <= last_piece_start(path) <= path.len(),
        last_piece_start(path) == 0 || path[last_piece_start(path) - 1] == SEPARATOR,
        forall|k: int| last_piece_start(path) <= k < path.len() ==> path[k] != SEPARATOR,
    decreases path.len(),
{
    if path.len() > 0 && path.last() != SEPARATOR {
        lemma_last_piece_start(path.drop_last());
        assert forall|k: int| last_piece_start(path) <= k < path.len() implies path[k]
            != SEPARATOR by {
            if k < path.len() - 1 {
                assert(path.drop_last()[k] == path[k]);
            }
        }
    }
}

/// What a path ends in is a file name.
pub proof fn file_name_is_file_name(path: Seq<u8>)
    ensures
        file_name(path) matches Some(name) ==> is_file_name(name),
{
    if file_name(path) is Some {
        let span = lemma_locate(path);
    }
}

/// A file name that starts a path or follows a separator is what the path ends in.
proof fn lemma_file_name_at_end(front: Seq<u8>, name: Seq<u8>)
    requires
        is_file_name(name),
        front.len() == 0 || front.last() == SEPARATOR,
    ensures
        file_name(front + name) == Some(name),
{
    let path = front + name;
    let start = front.len() as int;
    assert forall|k: int| start <= k < path.len() implies path[k] != SEPARATOR by {
        assert(name.contains(name[k - start]));
    }
    lemma_last_name(path, start, path.len() as int);
    assert(path.take(path.len() as int) =~= path);
    assert(path.subrange(start, path.len() as int) =~= name);
}

/// A file name that follows a folder is the file name of the whole path.
pub proof fn joined_file_name(base: Seq<u8>, name: Seq<u8>)
    requires
        is_file_name(name),
    ensures
        file_name(joined(base, name)) == Some(name),
{
    assert(name.contains(name[0]));
    if base.len() == 0 || base.last() == SEPARATOR {
        lemma_file_name_at_end(base, name);
    } else {
        lemma_file_name_at_end(base.push(SEPARATOR), name);
    }
}

/// The last dot of a name with an extension stands before that extension.
proof fn lemma_last_dot(front: Seq<u8>, ending: Seq<u8>)
    requires
        !ending.contains(DOT),
    ensures
        last_dot(front.push(DOT) + ending) == front.len(),
    decreases ending.len(),
{
    let name = front.push(DOT) + ending;
    if ending.len() == 0 {
        assert(name =~= front.push(DOT));
    } else {
        assert(ending.contains(ending.last()));
        assert(name.drop_last() =~= front.push(DOT) + ending.drop_last());
        assert forall|b: u8| ending.drop_last().contains(b) implies ending.contains(b) by {
            let k = choose|k: int| 0 <= k < ending.drop_last().len() && ending.drop_last()[k] == b;
            assert(ending[k] == b);
        }
        lemma_last_dot(front, ending.drop_last());
    }
}

/// A file name stays one when its extension changes.
proof fn lemma_new_name(name: Seq<u8>, ending: Seq<u8>)
    requires
        is_file_name(name),
        ending.len() > 0,
        !ending.contains(DOT),
        !ending.contains(SEPARATOR),
    ensures
        is_file_name(stem(name) + seq![DOT] + ending),
        last_dot(stem(name) + seq![DOT] + ending) == stem(name).len() > 0,
{
    let front = stem(name);
    let new_name = front + seq![DOT] + ending;
    lemma_last_dot_bounds(name);
    assert forall|k: int| 0 <= k < new_name.len() implies new_name[k] != SEPARATOR by {
        if k < front.len() {
            assert(new_name[k] == name[k]);
            assert(name.contains(name[k]));
        } else if k > front.len() {
            assert(ending.contains(ending[k - front.len() - 1]));
        }
    }
    assert(ending.contains(ending.last()));
    assert(new_name.last() == ending.last());
    assert(seq![DOT].last() == DOT && seq![DOT, DOT].last() == DOT);
    lemma_last_dot(front, ending);
    assert(front.push(DOT) + ending =~= new_name);
}

/// The extension that a path with a file name was given is its extension, and the stem of the
/// name stays.
pub proof fn extension_is_set(path: Seq<u8>, ending: Seq<u8>)
    requires
        file_name(path) is Some,
        ending.len() > 0,
        !ending.contains(DOT),
        !ending.contains(SEPARATOR),
    ensures
        file_name(with_extension(path, ending)) == Some(
            stem(file_name(path)->0) + seq![DOT] + ending,
        ),
        extension(with_extension(path, ending)) == Some(ending),
{
    let span = lemma_locate(path);
    let name = path.subrange(span.0, span.1);
    let front = path.take(span.0);
    let new_name = stem(name) + seq![DOT] + ending;
    file_name_is_file_name(path);
    lemma_new_name(name, ending);
    assert(path.take(span.1).take(span.1 - name.len()) =~= front);
    assert(with_extension(path, ending) =~= front + new_name);
    lemma_file_name_at_end(front, new_name);
    assert(new_name.skip(stem(name).len() as int + 1) =~= ending);
}

/// The extension is what a path that ends in a name ends in, behind a dot.
pub proof fn extension_is_at_end(path: Seq<u8>)
    requires
        extension(path) is Some,
        through_last_name(path) == path,
    ensures
        path.len() > extension(path)->0.len(),
        path.skip(path.len() - extension(path)->0.len()) == extension(path)->0,
        path[path.len() - extension(path)->0.len() - 1] == DOT,
{
    let span = lemma_locate(path);
    let name = path.subrange(span.0, span.1);
    assert(path.take(span.1).len() == path.len());
    lemma_last_dot_bounds(name);
    lemma_last_dot_is_dot(name);
    assert(path.skip(span.0 + last_dot(name) + 1) =~= name.skip(last_dot(name) + 1));
}

proof fn lemma_last_dot_is_dot(name: Seq<u8>)
    ensures
        last_dot(name) >= 0 ==> name[last_dot(name)] == DOT,
    decreases name.len(),
{
    if name.len() > 0 {
        lemma_last_dot_is_dot(name.drop_last());
        lemma_last_dot_bounds(name.drop_last());
    }
}

proof fn lemma_last_dot_bounds(name: Seq<u8>)
    ensures
        -1 <= last_dot(name) < name.len(),
    decreases name.len(),
{
    if name.len() > 0 {
        lemma_last_dot_bounds(name.drop_last());
    }
}

/// A path that ends in a name is not empty.
pub proof fn named_path_is_not_empty(path: Seq<u8>)
    requires
        file_name(path) is Some,
    ensures
        path.len() > 0,
{
    if path.len() == 0 {
        let parts = pieces(path);
        assert(parts.drop_last() =~= Seq::empty());
        reveal_with_fuel(Seq::filter, 2);
        assert(names(path).len() == 0);
    }
}

/// `parts` in order, with a slash between each two.
pub open spec fn glued(parts: Seq<Seq<u8>>) -> Seq<u8>
    decreases parts.len(),
{
    if parts.len() == 0 {
        Seq::empty()
    } else if parts.len() == 1 {
        parts[0]
    } else {
        glued(parts.drop_last()) + seq![0x2fu8] + parts.last()
    }
}

/// The pieces of a path that goes on behind a slash.
proof fn lemma_pieces_add(base: Seq<u8>, tail: Seq<u8>)
    ensures
        pieces(base + seq![0x2fu8] + tail) == pieces(base) + pieces(tail),
    decreases tail.len(),
{
    let path = base + seq![0x2fu8] + tail;
    if tail.len() == 0 {
        assert(path.last() == SEPARATOR);
        assert(path.drop_last() =~= base);
        assert(tail =~= Seq::<u8>::empty());
        assert(pieces(path) =~= pieces(base) + pieces(tail));
    } else {
        lemma_pieces_add(base, tail.drop_last());
        lemma_pieces_nonempty(tail.drop_last());
        assert(path.last() == tail.last());
        assert(path.drop_last() =~= base + seq![0x2fu8] + tail.drop_last());
        assert(pieces(path) =~= pieces(base) + pieces(tail));
    }
}

/// A piece without a slash is the one piece of itself.
proof fn lemma_one_piece(piece: Seq<u8>)
    requires
        !piece.contains(0x2fu8),
    ensures
        pieces(piece) == seq![piece],
{
    assert forall|k: int| 0 <= k < piece.len() implies piece[k] != SEPARATOR by {
        assert(piece.contains(piece[k]));
    }
    lemma_first_piece(piece, piece.len() as int);
    assert(piece.take(piece.len() as int) =~= piece);
    assert(pieces(piece) =~= seq![piece]);
}

/// A path is cut at its slashes and nowhere else: parts without a slash, put together with slashes
/// between them, are the pieces of the path.
pub proof fn pieces_are_between_slashes(parts: Seq<Seq<u8>>)
    requires
        parts.len() > 0,
        forall|i: int| 0 <= i < parts.len() ==> !(#[trigger] parts[i]).contains(0x2fu8),
    ensures
        pieces(glued(parts)) == parts,
    decreases parts.len(),
{
    lemma_one_piece(parts.last());
    if parts.len() == 1 {
        assert(pieces(glued(parts)) =~= parts);
    } else {
        pieces_are_between_slashes(parts.drop_last());
        lemma_pieces_add(glued(parts.drop_last()), parts.last());
        assert(pieces(glued(parts)) =~= parts);
    }
}

/// The names of a path that goes on behind a slash are the names before the slash and those
/// behind it.
pub proof fn names_go_on_behind_a_slash(base: Seq<u8>, tail: Seq<u8>)
    ensures
        names(base + seq![0x2fu8] + tail) == names(base) + names(tail),
{
    lemma_pieces_add(base, tail);
    Seq::filter_distributes_over_add(
        pieces(base),
        pieces(tail),
        |piece: Seq<u8>| is_name(piece),
    );
}

/// A piece without a slash is a name, unless it is empty or a single dot.
pub proof fn piece_is_a_name(piece: Seq<u8>)
    requires
        !piece.contains(0x2fu8),
    ensures
        piece.len() == 0 || piece == seq![0x2eu8] ==> names(piece).len() == 0,
        piece.len() > 0 && piece != seq![0x2eu8] ==> names(piece) == seq![piece],
{
    lemma_one_piece(piece);
    let none = Seq::<Seq<u8>>::empty();
    assert(pieces(piece) =~= none.push(piece));
    reveal(Seq::filter);
    lemma_filter_push(none, piece);
    assert(names(piece) =~= if is_name(piece) {
        none.push(piece)
    } else {
        none
    });
}

/// A slash at the end, and a single dot behind it, add no name to a path.
pub proof fn trailing_slash_adds_no_name(path: Seq<u8>)
    ensures
        names(path + seq![0x2fu8]) == names(path),
        names(path + seq![0x2fu8, 0x2eu8]) == names(path),
{
    let nothing = Seq::<u8>::empty();
    let dot = seq![0x2eu8];
    names_go_on_behind_a_slash(path, nothing);
    names_go_on_behind_a_slash(path, dot);
    piece_is_a_name(nothing);
    piece_is_a_name(dot);
    assert(path + seq![0x2fu8] + nothing =~= path + seq![0x2fu8]);
    assert(path + seq![0x2fu8] + dot =~= path + seq![0x2fu8, 0x2eu8]);
    assert(names(path) + names(nothing) =~= names(path));
    assert(names(path) + names(dot) =~= names(path));
}

/// A path starts at the root where its first byte is a slash, and is dotted where it is a dot or
/// starts with a dot and a slash.
pub proof fn beginning_is_in_the_first_bytes(path: Seq<u8>)
    ensures
        is_rooted(path) <==> path.len() > 0 && path[0] == 0x2f,
        is_dotted(path) <==> path.len() > 0 && path[0] == 0x2e && (path.len() == 1 || path[1]
            == 0x2f),
{
    lemma_is_dotted(path);
}

/// A name that stands alone or behind a slash is the file name, except two dots, which are none;
/// neither a slash nor a single dot behind it matters.
pub proof fn file_name_is_at_the_end(folder: Seq<u8>, name: Seq<u8>)
    requires
        name.len() > 0,
        !name.contains(0x2fu8),
        name != seq![0x2eu8],
    ensures
        name != seq![0x2eu8, 0x2eu8] ==> file_name(name) == Some(name) && file_name(
            folder + seq![0x2fu8] + name,
        ) == Some(name),
        name == seq![0x2eu8, 0x2eu8] ==> file_name(name) is None && file_name(
            folder + seq![0x2fu8] + name,
        ) is None,
{
    names_go_on_behind_a_slash(folder, name);
    piece_is_a_name(name);
    assert((names(folder) + names(name)).last() == name);
    assert(names(name).last() == name);
}

/// Neither a slash at the end nor a single dot behind it changes the file name, and a path without
/// a name has none.
pub proof fn file_name_ignores_a_trailing_slash(path: Seq<u8>)
    ensures
        file_name(path + seq![0x2fu8]) == file_name(path),
        file_name(path + seq![0x2fu8, 0x2eu8]) == file_name(path),
        names(path).len() == 0 ==> file_name(path) is None,
{
    trailing_slash_adds_no_name(path);
}

/// The last dot of a name: a dot is there, and none behind it.
proof fn lemma_last_dot_is_last(name: Seq<u8>)
    ensures
        -1 <= last_dot(name) < name.len(),
        last_dot(name) >= 0 ==> name[last_dot(name)] == DOT,
        forall|k: int| last_dot(name) < k < name.len() ==> name[k] != DOT,
    decreases name.len(),
{
    if name.len() > 0 && name.last() != DOT {
        lemma_last_dot_is_last(name.drop_last());
        assert forall|k: int| last_dot(name) < k < name.len() implies name[k] != DOT by {
            if k < name.len() - 1 {
                assert(name.drop_last()[k] != DOT);
            }
        }
    }
}

/// What follows the last dot of a file name is the extension, unless the name starts with that
/// dot.
pub proof fn extension_follows_the_last_dot(path: Seq<u8>, front: Seq<u8>, ending: Seq<u8>)
    requires
        file_name(path) == Some(front + seq![0x2eu8] + ending),
        !ending.contains(0x2eu8),
    ensures
        front.len() > 0 ==> extension(path) == Some(ending),
        front.len() == 0 ==> extension(path) is None,
{
    let name = front + seq![0x2eu8] + ending;
    lemma_last_dot(front, ending);
    assert(front.push(DOT) + ending =~= name);
    assert(name.skip(front.len() as int + 1) =~= ending);
}

/// A file name without a dot has no extension, nor has a path without a file name.
pub proof fn extension_needs_a_dot(path: Seq<u8>)
    ensures
        file_name(path) is None ==> extension(path) is None,
        file_name(path) matches Some(name) ==> (!name.contains(0x2eu8) ==> extension(path) is None),
{
    if let Some(name) = file_name(path) {
        lemma_last_dot_is_last(name);
        if last_dot(name) > 0 {
            assert(name.contains(name[last_dot(name)]));
        }
    }
}

/// A name is its stem, a dot and what follows the last dot, or it is its stem.
pub proof fn stem_is_before_the_last_dot(front: Seq<u8>, ending: Seq<u8>)
    requires
        !ending.contains(0x2eu8),
    ensures
        front.len() > 0 ==> stem(front + seq![0x2eu8] + ending) == front,
        front.len() == 0 ==> stem(seq![0x2eu8] + ending) == seq![0x2eu8] + ending,
        stem(ending) == ending,
{
    let name = front + seq![0x2eu8] + ending;
    lemma_last_dot(front, ending);
    assert(front.push(DOT) + ending =~= name);
    assert(name.take(front.len() as int) =~= front);
    lemma_last_dot_is_last(ending);
    if last_dot(ending) >= 0 {
        assert(ending.contains(ending[last_dot(ending)]));
    }
    if front.len() == 0 {
        assert(name =~= seq![0x2eu8] + ending);
    }
}

/// What follows the last name adds no name.
proof fn lemma_through_last_name(path: Seq<u8>)
    requires
        names(path).len() > 0,
    ensures
        names(through_last_name(path)) == names(path),
        0 < through_last_name(path).len() <= path.len(),
        through_last_name(path) == path.take(through_last_name(path).len() as int),
        through_last_name(path).last() != SEPARATOR,
        through_last_name(path).len() == 1 ==> path[0] != DOT,
{
    let span = lemma_locate(path);
    lemma_last_name(path, span.0, span.1);
    assert(path.take(span.1).last() == path[span.1 - 1]);
    if span.1 == 1 {
        let name = path.subrange(span.0, span.1);
        if path[0] == DOT {
            assert(name =~= seq![DOT]);
        }
    }
}

/// A path in a folder holds the names of the folder and then its own, begins as the folder does,
/// and is made of the bytes of both with at most one slash between them.
pub proof fn joined_path_is_in_the_folder(base: Seq<u8>, tail: Seq<u8>)
    requires
        !is_rooted(tail),
    ensures
        names(joined(base, tail)) == names(base) + names(tail),
        is_rooted(joined(base, tail)) == is_rooted(base),
        base.len() > 0 ==> is_dotted(joined(base, tail)) == is_dotted(base),
        base.len() == 0 ==> joined(base, tail) == tail,
        joined(base, tail).take(base.len() as int) == base,
        joined(base, tail).skip(joined(base, tail).len() - tail.len()) == tail,
        base.len() > 0 ==> joined(base, tail)[joined(base, tail).len() - tail.len() - 1] == 0x2f,
        joined(base, tail).len() <= base.len() + 1 + tail.len(),
        base.len() > 0 && base.last() == 0x2f ==> joined(base, tail).len() == base.len()
            + tail.len(),
{
    let path = joined(base, tail);
    assert(path.take(base.len() as int) =~= base);
    assert(path.skip(path.len() - tail.len()) =~= tail);
    lemma_is_dotted(path);
    lemma_is_dotted(base);
    if base.len() == 0 {
        assert(path =~= tail);
        piece_is_a_name(base);
        assert(names(base) + names(tail) =~= names(tail));
    } else if base.last() == SEPARATOR {
        let front = base.drop_last();
        names_go_on_behind_a_slash(front, tail);
        trailing_slash_adds_no_name(front);
        assert(front + seq![0x2fu8] =~= base);
        assert(front + seq![0x2fu8] + tail =~= path);
        assert(base[0] == path[0]);
    } else {
        names_go_on_behind_a_slash(base, tail);
        assert(base + seq![0x2fu8] + tail =~= path);
        assert(base[0] == path[0]);
    }
}

/// A path from the root stands for itself in every folder.
pub proof fn rooted_path_is_in_no_folder(base: Seq<u8>, tail: Seq<u8>)
    requires
        tail.len() > 0,
        tail[0] == 0x2f,
    ensures
        joined(base, tail) == tail,
{
}

/// The folder of a path: it holds all names of the path but the last, begins as the path does, is
/// a beginning of its bytes that ends in its own last name or is at most the root or a single dot,
/// and the last name in it is the path again.
pub proof fn parent_is_the_folder(path: Seq<u8>)
    requires
        names(path).len() > 0,
    ensures
        parent(path) is Some,
        ({
            let folder = parent(path)->0;
            &&& names(folder) == names(path).drop_last()
            &&& is_rooted(folder) == is_rooted(path)
            &&& is_dotted(folder) == is_dotted(path)
            &&& folder.len() < path.len()
            &&& folder == path.take(folder.len() as int)
            &&& folder.len() > 1 ==> folder.last() != 0x2f
            &&& names(folder).len() == 0 ==> folder.len() <= 1
            &&& names(folder).len() > 0 ==> folder.len() >= names(folder).last().len()
                && folder.skip(folder.len() - names(folder).last().len()) == names(folder).last()
            &&& same_path(joined(folder, names(path).last()), path)
        }),
{
    let span = lemma_locate(path);
    let name = path.subrange(span.0, span.1);
    let rest = path.take(span.0);
    let whole = through_last_name(path);
    let folder = parent(path)->0;
    assert(names(path).last() == name);
    assert(whole.take(whole.len() - name.len()) =~= rest);
    assert(names(path).drop_last() =~= names(rest));
    assert(!name.contains(SEPARATOR));
    lemma_is_dotted(path);
    lemma_is_dotted(name);
    if names(rest).len() > 0 {
        let inner = lemma_locate(rest);
        lemma_through_last_name(rest);
        assert(folder.skip(inner.0) =~= rest.subrange(inner.0, inner.1));
        assert(folder =~= path.take(folder.len() as int));
        assert(rest[0] == path[0]);
    } else {
        piece_is_a_name(seq![0x2eu8]);
        piece_is_a_name(Seq::empty());
        trailing_slash_adds_no_name(Seq::empty());
        if is_rooted(path) {
            assert(folder =~= Seq::<u8>::empty() + seq![0x2fu8]);
        } else if is_dotted(path) {
            assert(folder =~= seq![0x2eu8]);
        } else {
            assert(folder =~= Seq::<u8>::empty());
        }
        assert(names(folder) =~= names(rest));
        if span.0 == 0 && path[0] == DOT && path.len() > 1 && path[1] == SEPARATOR {
            assert(name.len() > 1 ==> name[1] == path[1]);
            assert(name.len() == 1 ==> name =~= seq![DOT]);
        }
        if span.0 == 0 && path.len() == 1 && path[0] == DOT {
            assert(name =~= seq![DOT]);
        }
    }
    lemma_is_dotted(folder);
    if folder.len() > 0 {
        assert(folder[0] == path[0]);
        if folder.len() > 1 {
            assert(folder[1] == path[1]);
        }
    }
    joined_path_is_in_the_folder(folder, name);
    piece_is_a_name(name);
    assert(names(folder) + names(name) =~= names(path));
    if name.len() > 1 {
        assert(name.contains(name[1]));
    } else if name[0] == DOT {
        assert(name =~= seq![DOT]);
    }
}

/// A path without a name has no folder, unless it is dotted: then that is the empty path.
pub proof fn nameless_path_has_no_folder(path: Seq<u8>)
    requires
        names(path).len() == 0,
    ensures
        is_dotted(path) ==> parent(path) == Some(Seq::<u8>::empty()),
        !is_dotted(path) ==> parent(path) is None,
{
}

/// Setting an extension changes the last name alone: to its stem, a dot and the extension. A path
/// without a file name stays as it is.
pub proof fn set_extension_keeps_the_folder(path: Seq<u8>, ending: Seq<u8>)
    requires
        ending.len() > 0,
        !ending.contains(0x2fu8),
    ensures
        file_name(path) is None ==> with_extension(path, ending) == path,
        file_name(path) matches Some(name) ==> names(with_extension(path, ending)) == names(
            path,
        ).drop_last().push(stem(name) + seq![0x2eu8] + ending) && is_rooted(
            with_extension(path, ending),
        ) == is_rooted(path) && is_dotted(with_extension(path, ending)) == is_dotted(path)
            && parent(with_extension(path, ending)) == parent(path),
        file_name(path) matches Some(name) ==> ({
            let set = with_extension(path, ending);
            let new_name = stem(name) + seq![0x2eu8] + ending;
            &&& set.len() >= new_name.len()
            &&& set.skip(set.len() - new_name.len()) == new_name
            &&& set.take(set.len() - new_name.len()) == path.take(set.len() - new_name.len())
            &&& set == with_extension(path, Seq::empty()) + seq![0x2eu8] + ending
            &&& ({
                let at = set.len() - new_name.len();
                &&& at + name.len() <= path.len()
                &&& path.subrange(at, at + name.len()) == name
                &&& names(path.take(at + name.len())) == names(path)
            })
        }),
{
    if file_name(path) is Some {
        let span = lemma_locate(path);
        let name = path.subrange(span.0, span.1);
        let front = path.take(span.0);
        let new_name = stem(name) + seq![0x2eu8] + ending;
        let new_path = with_extension(path, ending);
        lemma_last_dot_is_last(name);
        assert(path.take(span.1).take(span.1 - name.len()) =~= front);
        assert(new_path =~= front + new_name);
        assert(new_path.skip(new_path.len() - new_name.len()) =~= new_name);
        assert(new_path.take(new_path.len() - new_name.len()) =~= front);
        assert(new_path =~= with_extension(path, Seq::empty()) + seq![0x2eu8] + ending);
        lemma_last_name(path, span.0, span.1);
        assert forall|k: int| span.0 <= k < new_path.len() implies new_path[k] != SEPARATOR by {
            let at = k - span.0;
            if at < stem(name).len() {
                assert(new_path[k] == path[k]);
            } else if at > stem(name).len() {
                assert(ending.contains(ending[at - stem(name).len() - 1]));
            }
        }
        let end = new_path.len() as int;
        lemma_last_name(new_path, span.0, end);
        assert(new_path.take(end) =~= new_path);
        assert(new_path.take(span.0) =~= front);
        assert(new_path.subrange(span.0, end) =~= new_name);
        assert(new_name.len() > seq![DOT].len());
        assert(names(path).drop_last() =~= names(front));
        lemma_is_dotted(path);
        lemma_is_dotted(new_path);
        assert(new_path[0] == path[0]);
        if span.0 > 1 {
            assert(new_path[1] == path[1]);
        } else if span.0 == 1 {
            assert(path[0] == SEPARATOR);
        } else {
            assert(new_path[1] != SEPARATOR);
            if path[0] == DOT {
                if name.len() == 1 {
                    assert(name =~= seq![DOT]);
                } else {
                    assert(path[1] != SEPARATOR);
                }
            }
        }
        assert(through_last_name(new_path) == new_path);
        assert(new_path.take(new_path.len() - new_name.len()) =~= front);
        let whole = through_last_name(path);
        assert(whole.take(whole.len() - name.len()) =~= front);
        assert(is_rooted(path) || is_dotted(path) ==> new_path.take(1) =~= path.take(1));
        assert(new_path.take(0) =~= path.take(0));
    }
}

/// Being the same path is an equivalence.
pub proof fn same_path_is_an_equivalence(left: Seq<u8>, middle: Seq<u8>, right: Seq<u8>)
    ensures
        same_path(left, left),
        same_path(left, right) == same_path(right, left),
        same_path(left, middle) && same_path(middle, right) ==> same_path(left, right),
{
}

/// A path stays the same path where a slash is doubled or a single dot is put between two
/// slashes, behind its beginning, and where it ends in one more slash.
pub proof fn extra_slashes_do_not_matter(base: Seq<u8>, tail: Seq<u8>)
    requires
        base.len() > 0,
    ensures
        same_path(base + seq![0x2fu8, 0x2fu8] + tail, base + seq![0x2fu8] + tail),
        same_path(base + seq![0x2fu8, 0x2eu8, 0x2fu8] + tail, base + seq![0x2fu8] + tail),
        same_path(base + seq![0x2fu8], base),
{
    let plain = base + seq![0x2fu8] + tail;
    let doubled = base + seq![0x2fu8, 0x2fu8] + tail;
    let dotted = base + seq![0x2fu8, 0x2eu8, 0x2fu8] + tail;
    let ended = base + seq![0x2fu8];
    names_go_on_behind_a_slash(base, tail);
    trailing_slash_adds_no_name(base);
    names_go_on_behind_a_slash(ended, tail);
    assert(ended + seq![0x2fu8] + tail =~= doubled);
    names_go_on_behind_a_slash(base + seq![0x2fu8, 0x2eu8], tail);
    assert(base + seq![0x2fu8, 0x2eu8] + seq![0x2fu8] + tail =~= dotted);
    lemma_is_dotted(plain);
    lemma_is_dotted(doubled);
    lemma_is_dotted(dotted);
    lemma_is_dotted(ended);
    lemma_is_dotted(base);
    assert(plain[0] == base[0] && doubled[0] == base[0] && dotted[0] == base[0] && ended[0]
        == base[0]);
    if base.len() > 1 {
        assert(plain[1] == base[1] && doubled[1] == base[1] && dotted[1] == base[1] && ended[1]
            == base[1]);
    } else {
        assert(plain[1] == SEPARATOR && doubled[1] == SEPARATOR && dotted[1] == SEPARATOR
            && ended[1] == SEPARATOR);
    }
}

/// Paths with different names are different paths, and so are one from the root and one that is
/// not.
pub proof fn different_names_make_different_paths(left: Seq<u8>, right: Seq<u8>)
    ensures
        names(left) != names(right) ==> !same_path(left, right),
        is_rooted(left) != is_rooted(right) ==> !same_path(left, right),
        is_dotted(left) != is_dotted(right) ==> !same_path(left, right),
{
}

/// Paths from the root that are written plainly, a slash before each name, are the same path only
/// where they are the same bytes.
pub proof fn plain_paths_are_told_by_their_bytes(left: Seq<Seq<u8>>, right: Seq<Seq<u8>>)
    requires
        forall|i: int| 0 <= i < left.len() ==> is_name(#[trigger] left[i]) && !left[i].contains(
            0x2fu8,
        ),
        forall|i: int| 0 <= i < right.len() ==> is_name(#[trigger] right[i]) && !right[i].contains(
            0x2fu8,
        ),
    ensures
        same_path(plain(left), plain(right)) ==> plain(left) == plain(right),
        names(plain(left)) == left,
        left.len() > 0 ==> is_rooted(plain(left)),
{
    lemma_plain(left);
    lemma_plain(right);
}

/// The path from the root through `steps`, with a slash before each.
pub open spec fn plain(steps: Seq<Seq<u8>>) -> Seq<u8>
    decreases steps.len(),
{
    if steps.len() == 0 {
        Seq::empty()
    } else {
        plain(steps.drop_last()) + seq![0x2fu8] + steps.last()
    }
}

proof fn lemma_plain(steps: Seq<Seq<u8>>)
    requires
        forall|i: int| 0 <= i < steps.len() ==> is_name(#[trigger] steps[i])
            && !steps[i].contains(0x2fu8),
    ensures
        names(plain(steps)) == steps,
        steps.len() > 0 ==> is_rooted(plain(steps)),
    decreases steps.len(),
{
    if steps.len() == 0 {
        piece_is_a_name(Seq::empty());
        assert(names(plain(steps)) =~= steps);
    } else {
        lemma_plain(steps.drop_last());
        names_go_on_behind_a_slash(plain(steps.drop_last()), steps.last());
        piece_is_a_name(steps.last());
        assert(names(plain(steps)) =~= steps);
        if steps.len() > 1 {
            assert(plain(steps)[0] == plain(steps.drop_last())[0]);
        }
    }
}

/// A path is seen as its bytes.
pub proof fn path_is_its_bytes(path: FilePath)
    ensures
        path@ == path.bytes@,
{
}

} // verus!
