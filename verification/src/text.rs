//! Text: UTF-8, white space, substitution, and the decimal notation of numbers.
//!
//! A text is modelled by the sequence of its characters.
use vstd::prelude::*;
use vstd::utf8::*;

verus! {

/// The view of what is inside an option.
pub open spec fn option_view<T: View>(value: Option<T>) -> Option<T::V> {
    match value {
        Some(inner) => Some(inner@),
        None => None,
    }
}

/// The view of a reply: what was computed, or the text of the message.
pub open spec fn reply_view<T: View>(reply: Result<T, String>) -> Result<T::V, Seq<char>> {
    match reply {
        Ok(value) => Ok(value@),
        Err(message) => Err(message@),
    }
}

/// The text that `bytes` encode, where they are valid UTF-8.
pub open spec fn utf8_text(bytes: Seq<u8>) -> Option<Seq<char>> {
    if valid_utf8(bytes) {
        Some(decode_utf8(bytes))
    } else {
        None
    }
}

/// The text that `String::from_utf8_lossy` reads from `bytes`: each sequence of bytes that is not
/// UTF-8 gives a replacement character, the rest is decoded.
pub uninterp spec fn lossy_text(bytes: Seq<u8>) -> Seq<char>;

/// Whether `lossy_text` keeps what is UTF-8 in `bytes`: bytes that are UTF-8 are read as the text
/// that they encode; so is a beginning and an end of `bytes` that is UTF-8, while what is between
/// them is read as it is alone; and where there are bytes there is text.
pub open spec fn is_faithful(bytes: Seq<u8>) -> bool {
    &&& valid_utf8(bytes) ==> lossy_text(bytes) == decode_utf8(bytes)
    &&& bytes.len() > 0 ==> lossy_text(bytes).len() > 0
    &&& forall|i: int, j: int|
        #![trigger bytes.take(i), bytes.skip(j)]
        0 <= i <= j <= bytes.len() && valid_utf8(bytes.take(i)) && valid_utf8(bytes.skip(j))
            ==> lossy_text(bytes) == decode_utf8(bytes.take(i)) + lossy_text(bytes.subrange(i, j))
            + decode_utf8(bytes.skip(j))
}

/// Calls `String::from_utf8_lossy`. Trusted: the result is the text named `lossy_text`. Of bytes
/// that are valid UTF-8 it is the text that they encode. Of bytes that begin and end with valid
/// UTF-8 it is that text, with the result for the bytes between in its middle: decoding goes from
/// left to right, a replacement character stands for each sequence that is not UTF-8, such a
/// sequence starts after what was decoded and stops short of the byte that it did not expect, and
/// decoding resumes there (see `Utf8Error::error_len`). Of some bytes it is some text. How many
/// replacement characters stand for bytes that are not UTF-8 is left unsaid.
#[verifier::external_body]
pub(crate) fn read_lossy(bytes: &[u8]) -> (text: String)
    ensures
        text@ == lossy_text(bytes@),
        valid_utf8(bytes@) ==> text@ == decode_utf8(bytes@),
        bytes@.len() > 0 ==> text@.len() > 0,
        forall|i: int, j: int|
            #![trigger bytes@.take(i), bytes@.skip(j)]
            0 <= i <= j <= bytes@.len() && valid_utf8(bytes@.take(i)) && valid_utf8(bytes@.skip(j))
                ==> text@ == decode_utf8(bytes@.take(i)) + lossy_text(bytes@.subrange(i, j))
                + decode_utf8(bytes@.skip(j)),
{
    String::from_utf8_lossy(bytes).into_owned()
}

/// Calls `std::str::from_utf8`. Trusted: it succeeds exactly on valid UTF-8, and then gives the
/// text that the bytes encode.
#[verifier::external_body]
pub(crate) fn read_utf8(bytes: &[u8]) -> (text: Option<&str>)
    ensures
        option_view(text) == utf8_text(bytes@),
{
    std::str::from_utf8(bytes).ok()
}

/// `String::push`. Trusted: it appends the character.
pub assume_specification[ String::push ](s: &mut String, c: char)
    ensures
        final(s)@ == old(s)@.push(c),
;

/// The characters of `text`, in order.
pub fn characters(text: &str) -> (chars: Vec<char>)
    ensures
        chars@ == text@,
{
    let mut chars: Vec<char> = Vec::new();
    for c in it: text.chars()
        invariant
            it.seq() == text@,
            chars@ == text@.take(it.index() as int),
    {
        chars.push(c);
    }
    chars
}

/// The text made of `chars`, in order.
pub fn text_of(chars: &[char]) -> (text: String)
    ensures
        text@ == chars@,
{
    let mut text = String::new();
    let mut i: usize = 0;
    while i < chars.len()
        invariant
            i <= chars@.len(),
            text@ == chars@.take(i as int),
        decreases chars@.len() - i,
    {
        text.push(chars[i]);
        i += 1;
        assert(chars@.take(i as int) =~= chars@.take(i - 1).push(chars@[i - 1]));
    }
    assert(chars@.take(i as int) =~= chars@);
    text
}

/// The byte `b` with an upper-case ASCII letter made lower-case.
pub open spec fn ascii_lower(b: u8) -> u8 {
    if 0x41 <= b <= 0x5a {
        (b + 0x20) as u8
    } else {
        b
    }
}

/// Whether `bytes` spell the ASCII word `word`, whatever the case of their letters. The word
/// itself is in lower case.
pub open spec fn spells(bytes: Seq<u8>, word: Seq<char>) -> bool {
    &&& bytes.len() == word.len()
    &&& forall|i: int|
        0 <= i < word.len() ==> ascii_lower(#[trigger] bytes[i]) as char == word[i]
}

/// Whether `bytes` spell the ASCII word `word`, whatever the case of their letters.
pub fn is_spelling(bytes: &[u8], word: &str) -> (answer: bool)
    requires
        word.is_ascii(),
    ensures
        answer == spells(bytes@, word@),
{
    let letters = word.as_bytes();
    proof {
        vstd::string::is_ascii_spec_bytes(word);
    }
    if bytes.len() != letters.len() {
        return false;
    }
    let mut i: usize = 0;
    while i < letters.len()
        invariant
            i <= letters@.len(),
            bytes@.len() == letters@.len() == word@.len(),
            is_ascii_chars(word@),
            letters@ == Seq::new(word@.len(), |k: int| word@[k] as u8),
            forall|k: int| 0 <= k < i ==> ascii_lower(#[trigger] bytes@[k]) as char == word@[k],
        decreases letters@.len() - i,
    {
        let b = bytes[i];
        let lower: u8 = if 0x41 <= b && b <= 0x5a {
            b + 0x20
        } else {
            b
        };
        assert(letters@[i as int] == word@[i as int] as u8);
        proof {
            is_ascii_chars_nat_bound(word@);
        }
        if lower != letters[i] {
            assert(ascii_lower(bytes@[i as int]) as char != word@[i as int]);
            return false;
        }
        i += 1;
    }
    true
}

/// Whether `c` has the Unicode property White_Space.
pub open spec fn is_white_space(c: char) -> bool {
    let code = c as u32;
    ||| 0x9 <= code <= 0xd
    ||| code == 0x20
    ||| code == 0x85
    ||| code == 0xa0
    ||| code == 0x1680
    ||| 0x2000 <= code <= 0x200a
    ||| code == 0x2028
    ||| code == 0x2029
    ||| code == 0x202f
    ||| code == 0x205f
    ||| code == 0x3000
}

fn check_white_space(c: char) -> (answer: bool)
    ensures
        answer == is_white_space(c),
{
    let code = c as u32;
    (0x9 <= code && code <= 0xd) || code == 0x20 || code == 0x85 || code == 0xa0 || code == 0x1680
        || (0x2000 <= code && code <= 0x200a) || code == 0x2028 || code == 0x2029 || code == 0x202f
        || code == 0x205f || code == 0x3000
}

/// `text` without the white space that it starts with.
pub open spec fn trim_start(text: Seq<char>) -> Seq<char>
    decreases text.len(),
{
    if text.len() > 0 && is_white_space(text[0]) {
        trim_start(text.drop_first())
    } else {
        text
    }
}

/// `text` without the white space that it ends with.
pub open spec fn trim_end(text: Seq<char>) -> Seq<char>
    decreases text.len(),
{
    if text.len() > 0 && is_white_space(text.last()) {
        trim_end(text.drop_last())
    } else {
        text
    }
}

/// `text` without the white space at its two ends.
pub open spec fn trim(text: Seq<char>) -> Seq<char> {
    trim_end(trim_start(text))
}

/// Whether `text` is white space and nothing else.
pub open spec fn is_blank(text: Seq<char>) -> bool {
    forall|i: int| 0 <= i < text.len() ==> is_white_space(#[trigger] text[i])
}

/// White space at the end goes with what is trimmed there.
proof fn lemma_trim_end(text: Seq<char>, trail: Seq<char>)
    requires
        is_blank(trail),
    ensures
        trim_end(text + trail) == trim_end(text),
    decreases trail.len(),
{
    if trail.len() == 0 {
        assert(text + trail =~= text);
    } else {
        assert((text + trail).last() == trail[trail.len() - 1]);
        assert((text + trail).drop_last() =~= text + trail.drop_last());
        lemma_trim_end(text, trail.drop_last());
    }
}

/// White space around a text goes with what is trimmed from it.
pub proof fn white_space_around_is_trimmed(lead: Seq<char>, text: Seq<char>, trail: Seq<char>)
    requires
        is_blank(lead),
        is_blank(trail),
    ensures
        trim(lead + text + trail) == trim(text),
    decreases lead.len(), text.len(), trail.len(),
{
    let whole = lead + text + trail;
    if lead.len() > 0 {
        assert(whole[0] == lead[0]);
        assert(whole.drop_first() =~= lead.drop_first() + text + trail);
        white_space_around_is_trimmed(lead.drop_first(), text, trail);
    } else if text.len() > 0 {
        assert(whole =~= text + trail);
        assert(whole[0] == text[0]);
        if is_white_space(text[0]) {
            assert(whole.drop_first() =~= lead + text.drop_first() + trail);
            white_space_around_is_trimmed(lead, text.drop_first(), trail);
        } else {
            lemma_trim_end(text, trail);
        }
    } else if trail.len() > 0 {
        assert(whole =~= trail);
        assert(whole[0] == trail[0]);
        assert(whole.drop_first() =~= lead + text + trail.drop_first());
        white_space_around_is_trimmed(lead, text, trail.drop_first());
    } else {
        assert(whole =~= text);
    }
}

/// `text` without the white space at its two ends.
pub fn trimmed(text: &[char]) -> (inner: &[char])
    ensures
        inner@ == trim(text@),
{
    let mut from: usize = 0;
    assert(text@.skip(0) =~= text@);
    while from < text.len() && check_white_space(text[from])
        invariant
            from <= text@.len(),
            trim_start(text@.skip(from as int)) == trim_start(text@),
        decreases text@.len() - from,
    {
        assert(text@.skip(from as int).drop_first() =~= text@.skip(from + 1));
        from += 1;
    }
    let mut to: usize = text.len();
    assert(text@.subrange(from as int, to as int) =~= text@.skip(from as int));
    while from < to && check_white_space(text[to - 1])
        invariant
            from <= to <= text@.len(),
            trim_end(text@.subrange(from as int, to as int)) == trim(text@),
        decreases to,
    {
        assert(text@.subrange(from as int, to as int).drop_last() =~= text@.subrange(
            from as int,
            to - 1,
        ));
        to -= 1;
    }
    vstd::slice::slice_subrange(text, from, to)
}

/// Whether `text` starts with `word`.
pub open spec fn starts_with(text: Seq<char>, word: Seq<char>) -> bool {
    word.len() <= text.len() && text.take(word.len() as int) == word
}

/// Whether `word` stands somewhere in `text`.
pub open spec fn occurs_in(word: Seq<char>, text: Seq<char>) -> bool {
    exists|i: int| 0 <= i <= text.len() && #[trigger] starts_with(text.skip(i), word)
}

/// `text` with `new_word` in place of every `old_word`, read from the left: a stretch that was
/// replaced is not looked at again. An empty `old_word` stands before every character and at the
/// end.
pub open spec fn substitute(text: Seq<char>, old_word: Seq<char>, new_word: Seq<char>) -> Seq<char>
    decreases text.len(),
{
    if old_word.len() == 0 {
        if text.len() == 0 {
            new_word
        } else {
            new_word + seq![text[0]] + substitute(text.skip(1), old_word, new_word)
        }
    } else if text.len() == 0 {
        text
    } else if starts_with(text, old_word) {
        new_word + substitute(text.skip(old_word.len() as int), old_word, new_word)
    } else {
        seq![text[0]] + substitute(text.skip(1), old_word, new_word)
    }
}

/// Whether `word` stands in `text` at the position `at`.
fn stands_at(text: &[char], at: usize, word: &[char]) -> (answer: bool)
    requires
        at <= text@.len(),
    ensures
        answer == starts_with(text@.skip(at as int), word@),
{
    if word.len() > text.len() - at {
        return false;
    }
    let mut i: usize = 0;
    while i < word.len()
        invariant
            i <= word@.len(),
            at + word@.len() <= text@.len() <= usize::MAX,
            forall|k: int| 0 <= k < i ==> text@[at + k] == #[trigger] word@[k],
        decreases word@.len() - i,
    {
        if text[at + i] != word[i] {
            assert(text@.skip(at as int).take(word@.len() as int)[i as int] != word@[i as int]);
            return false;
        }
        i += 1;
    }
    assert(text@.skip(at as int).take(word@.len() as int) =~= word@);
    true
}

fn append(chars: &mut Vec<char>, more: &[char])
    ensures
        final(chars)@ == old(chars)@ + more@,
{
    let ghost start = chars@;
    let mut i: usize = 0;
    while i < more.len()
        invariant
            i <= more@.len(),
            chars@ == start + more@.take(i as int),
        decreases more@.len() - i,
    {
        chars.push(more[i]);
        i += 1;
        assert(more@.take(i as int) =~= more@.take(i - 1).push(more@[i - 1]));
    }
    assert(more@.take(i as int) =~= more@);
}

/// `text` with `new_word` in place of every `old_word`.
pub fn substituted(text: &[char], old_word: &[char], new_word: &[char]) -> (result: Vec<char>)
    ensures
        result@ == substitute(text@, old_word@, new_word@),
{
    let mut result: Vec<char> = Vec::new();
    let mut at: usize = 0;
    assert(text@.skip(0) =~= text@);
    while at < text.len()
        invariant
            at <= text@.len(),
            substitute(text@, old_word@, new_word@) =~= result@ + substitute(
                text@.skip(at as int),
                old_word@,
                new_word@,
            ),
        decreases text@.len() - at,
    {
        let ghost rest = text@.skip(at as int);
        if old_word.len() == 0 {
            append(&mut result, new_word);
            result.push(text[at]);
            assert(rest.skip(1) =~= text@.skip(at + 1));
            at += 1;
        } else if stands_at(text, at, old_word) {
            append(&mut result, new_word);
            assert(rest.skip(old_word@.len() as int) =~= text@.skip(at + old_word@.len()));
            at += old_word.len();
        } else {
            result.push(text[at]);
            assert(rest.skip(1) =~= text@.skip(at + 1));
            at += 1;
        }
    }
    if old_word.len() == 0 {
        append(&mut result, new_word);
    }
    result
}

/// The decimal digits of `n`, most significant first, as ASCII bytes.
pub open spec fn decimal(n: nat) -> Seq<u8>
    decreases n,
{
    if n < 10 {
        seq![(0x30 + n) as u8]
    } else {
        decimal(n / 10).push((0x30 + n % 10) as u8)
    }
}

/// The decimal digits of `n`.
pub fn decimal_digits(n: u32) -> (digits: Vec<u8>)
    ensures
        digits@ == decimal(n as nat),
    decreases n,
{
    if n < 10 {
        let mut digits: Vec<u8> = Vec::new();
        digits.push(0x30 + n as u8);
        assert(digits@ =~= decimal(n as nat));
        digits
    } else {
        let mut digits = decimal_digits(n / 10);
        digits.push(0x30 + (n % 10) as u8);
        digits
    }
}

/// Two numbers with the same decimal digits are the same number.
pub proof fn decimal_is_injective(m: nat, n: nat)
    requires
        decimal(m) == decimal(n),
    ensures
        m == n,
    decreases m,
{
    if m < 10 && n < 10 {
        assert(decimal(m)[0] == (0x30 + m) as u8);
        assert(decimal(n)[0] == (0x30 + n) as u8);
    } else if m < 10 {
        assert(decimal(m).len() == 1);
        assert(decimal(n).len() == decimal(n / 10).len() + 1);
    } else if n < 10 {
        assert(decimal(n).len() == 1);
        assert(decimal(m).len() == decimal(m / 10).len() + 1);
    } else {
        assert(decimal(m).last() == (0x30 + m % 10) as u8);
        assert(decimal(n).last() == (0x30 + n % 10) as u8);
        assert(decimal(m / 10) =~= decimal(m).drop_last());
        assert(decimal(n / 10) =~= decimal(n).drop_last());
        decimal_is_injective(m / 10, n / 10);
        assert(m == 10 * (m / 10) + m % 10 && n == 10 * (n / 10) + n % 10);
    }
}

/// Trimming cuts white space off both ends and nothing else: what is cut off is blank, and what is
/// left neither starts nor ends with white space.
pub proof fn trimmed_text_is_bare(text: Seq<char>)
    ensures
        trim(text).len() > 0 ==> !is_white_space(trim(text)[0]) && !is_white_space(
            trim(text).last(),
        ),
        exists|from: int|
            0 <= from <= from + trim(text).len() <= text.len() && trim(text) == text.subrange(
                from,
                from + trim(text).len(),
            ) && is_blank(#[trigger] text.take(from)) && is_blank(
                text.skip(from + trim(text).len()),
            ),
{
    let from = lemma_trim_start(text);
    let inner = text.skip(from);
    let to = lemma_trim_end_is_bare(inner);
    assert(trim(text) =~= text.subrange(from, from + to));
    assert(text.skip(from + to) =~= inner.skip(to));
    if to > 0 {
        assert(trim(text)[0] == inner[0]);
    }
}

proof fn lemma_trim_start(text: Seq<char>) -> (from: int)
    ensures
        0 <= from <= text.len(),
        trim_start(text) == text.skip(from),
        is_blank(text.take(from)),
        from < text.len() ==> !is_white_space(text[from]),
    decreases text.len(),
{
    if text.len() > 0 && is_white_space(text[0]) {
        let from = lemma_trim_start(text.drop_first());
        assert(text.drop_first().skip(from) =~= text.skip(from + 1));
        assert forall|i: int| 0 <= i < from + 1 implies is_white_space(
            #[trigger] text.take(from + 1)[i],
        ) by {
            if i > 0 {
                assert(text.drop_first().take(from)[i - 1] == text[i]);
            }
        }
        from + 1
    } else {
        assert(text.skip(0) =~= text);
        0
    }
}

proof fn lemma_trim_end_is_bare(text: Seq<char>) -> (to: int)
    ensures
        0 <= to <= text.len(),
        trim_end(text) == text.take(to),
        is_blank(text.skip(to)),
        to > 0 ==> !is_white_space(text[to - 1]),
    decreases text.len(),
{
    if text.len() > 0 && is_white_space(text.last()) {
        let to = lemma_trim_end_is_bare(text.drop_last());
        assert(text.drop_last().take(to) =~= text.take(to));
        assert forall|i: int| 0 <= i < text.len() - to implies is_white_space(
            #[trigger] text.skip(to)[i],
        ) by {
            if i < text.len() - to - 1 {
                assert(text.drop_last().skip(to)[i] == text[to + i]);
            }
        }
        to
    } else {
        assert(text.take(text.len() as int) =~= text);
        text.len() as int
    }
}

/// White space within ASCII: the space, and what lies from the tab to the carriage return.
pub proof fn ascii_white_space(c: char)
    requires
        c as u32 <= 0x7f,
    ensures
        is_white_space(c) <==> c == ' ' || c == '\t' || c == '\n' || c == '\r' || c as u32 == 0xb
            || c as u32 == 0xc,
{
}

/// A text in which the word does not stand stays as it is.
pub proof fn text_without_the_word_stays(text: Seq<char>, word: Seq<char>, new_word: Seq<char>)
    requires
        word.len() > 0,
        !occurs_in(word, text),
    ensures
        substitute(text, word, new_word) == text,
    decreases text.len(),
{
    if text.len() > 0 {
        assert(text.skip(0) =~= text);
        assert(!starts_with(text.skip(0), word));
        assert forall|i: int| 0 <= i <= text.skip(1).len() implies !#[trigger] starts_with(
            text.skip(1).skip(i),
            word,
        ) by {
            assert(text.skip(1).skip(i) =~= text.skip(i + 1));
        }
        text_without_the_word_stays(text.skip(1), word, new_word);
        assert(seq![text[0]] + text.skip(1) =~= text);
    }
}

/// The first place of the word is where it is replaced first: what stands before it stays, the new
/// word follows, and the rest is gone through likewise.
pub proof fn first_place_of_the_word_is_replaced(
    head: Seq<char>,
    word: Seq<char>,
    rest: Seq<char>,
    new_word: Seq<char>,
)
    requires
        word.len() > 0,
        forall|i: int|
            0 <= i < head.len() ==> !#[trigger] starts_with((head + word + rest).skip(i), word),
    ensures
        substitute(head + word + rest, word, new_word) == head + new_word + substitute(
            rest,
            word,
            new_word,
        ),
    decreases head.len(),
{
    let text = head + word + rest;
    assert(text.skip(0) =~= text);
    if head.len() == 0 {
        assert(text.take(word.len() as int) =~= word);
        assert(text.skip(word.len() as int) =~= rest);
        assert(head + new_word + substitute(rest, word, new_word) =~= new_word + substitute(
            rest,
            word,
            new_word,
        ));
    } else {
        let shorter = head.skip(1);
        assert(!starts_with(text.skip(0), word));
        assert(text.skip(1) =~= shorter + word + rest);
        assert forall|i: int| 0 <= i < shorter.len() implies !#[trigger] starts_with(
            (shorter + word + rest).skip(i),
            word,
        ) by {
            assert((shorter + word + rest).skip(i) =~= text.skip(i + 1));
        }
        first_place_of_the_word_is_replaced(shorter, word, rest, new_word);
        assert(seq![text[0]] + (shorter + new_word + substitute(rest, word, new_word)) =~= head
            + new_word + substitute(rest, word, new_word));
    }
}

/// The empty word stands before every character and at the end.
pub proof fn empty_word_stands_everywhere(c: char, rest: Seq<char>, new_word: Seq<char>)
    ensures
        substitute(Seq::empty(), Seq::empty(), new_word) == new_word,
        substitute(seq![c] + rest, Seq::empty(), new_word) == new_word + seq![c] + substitute(
            rest,
            Seq::empty(),
            new_word,
        ),
{
    assert((seq![c] + rest).skip(1) =~= rest);
}

/// A word stands in a text exactly where the text is made of something, the word, and something.
pub proof fn word_stands_between(head: Seq<char>, word: Seq<char>, rest: Seq<char>, text: Seq<char>)
    ensures
        occurs_in(word, head + word + rest),
        starts_with(word + rest, word),
        occurs_in(word, text) ==> exists|i: int|
            0 <= i <= text.len() - word.len() && text == #[trigger] text.take(i) + word
                + text.skip(i + word.len()),
{
    let whole = head + word + rest;
    assert(whole.skip(head.len() as int).take(word.len() as int) =~= word);
    assert(starts_with(whole.skip(head.len() as int), word));
    assert((word + rest).take(word.len() as int) =~= word);
    if occurs_in(word, text) {
        let i = choose|i: int| 0 <= i <= text.len() && #[trigger] starts_with(text.skip(i), word);
        assert(text.skip(i).take(word.len() as int) == word);
        assert(text =~= text.take(i) + word + text.skip(i + word.len()));
    }
}

/// A byte spells a letter of a word in lower case where it is that letter or its capital, and
/// spells any other character of the word where it is that character.
pub proof fn spelling_is_by_letter_and_capital(bytes: Seq<u8>, word: Seq<char>)
    requires
        forall|i: int|
            0 <= i < word.len() ==> 0 <= #[trigger] word[i] as int <= 0x7f && !('A' <= word[i]
                <= 'Z'),
    ensures
        spells(bytes, word) <==> bytes.len() == word.len() && forall|i: int|
            0 <= i < word.len() ==> #[trigger] bytes[i] == word[i] as int || ('a' <= word[i] <= 'z'
                && bytes[i] + 0x20 == word[i] as int),
{
    if spells(bytes, word) {
        assert forall|i: int| 0 <= i < word.len() implies #[trigger] bytes[i] == word[i] as int || (
        'a' <= word[i] <= 'z' && bytes[i] + 0x20 == word[i] as int) by {
            assert(ascii_lower(bytes[i]) as char == word[i]);
        }
    }
    if bytes.len() == word.len() && forall|i: int|
        0 <= i < word.len() ==> #[trigger] bytes[i] == word[i] as int || ('a' <= word[i] <= 'z'
            && bytes[i] + 0x20 == word[i] as int) {
        assert forall|i: int| 0 <= i < word.len() implies ascii_lower(
            #[trigger] bytes[i],
        ) as char == word[i] by {
            assert(word[i] as int <= 0x7f);
        }
    }
}

/// The number that `digits` denote in decimal notation.
pub open spec fn number_of(digits: Seq<u8>) -> int
    decreases digits.len(),
{
    if digits.len() == 0 {
        0
    } else {
        number_of(digits.drop_last()) * 10 + (digits.last() - 0x30)
    }
}

/// The decimal digits of a number are digits, denote it, and start with no zero but where it is
/// zero itself.
pub proof fn digits_denote_the_number(n: nat)
    ensures
        number_of(decimal(n)) == n,
        decimal(n).len() > 0,
        forall|i: int| 0 <= i < decimal(n).len() ==> 0x30 <= #[trigger] decimal(n)[i] <= 0x39,
        n > 0 ==> decimal(n)[0] != 0x30,
        n == 0 ==> decimal(n).len() == 1,
    decreases n,
{
    if n >= 10 {
        digits_denote_the_number(n / 10);
        assert(decimal(n).drop_last() =~= decimal(n / 10));
        assert(n == 10 * (n / 10) + n % 10);
        assert(decimal(n)[0] == decimal(n / 10)[0]);
    } else {
        assert(decimal(n).drop_last() =~= Seq::<u8>::empty());
        assert(number_of(Seq::empty()) == 0);
    }
}

/// Bytes are text exactly where they are valid UTF-8, and the text encodes to them again.
pub proof fn text_encodes_to_its_bytes(bytes: Seq<u8>)
    ensures
        utf8_text(bytes) is Some <==> valid_utf8(bytes),
        utf8_text(bytes) matches Some(text) ==> encode_utf8(text) == bytes && text == decode_utf8(
            bytes,
        ),
{
    if valid_utf8(bytes) {
        decode_utf8_encode_utf8(bytes);
    }
}

/// An option is seen with the view of what is in it, and a reply with the view of its value or the
/// text of its message.
pub proof fn replies_are_seen_through<T: View>(value: T, message: String)
    ensures
        option_view(Some(value)) == Some(value@),
        option_view(None::<T>) is None,
        reply_view(Ok::<T, String>(value)) == Ok::<T::V, Seq<char>>(value@),
        reply_view(Err::<T, String>(message)) == Err::<T::V, Seq<char>>(message@),
{
}

} // verus!
