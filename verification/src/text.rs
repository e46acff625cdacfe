//! Text that the library builds from bytes and characters with std's string functions.
use vstd::prelude::*;
use vstd::string::StrSliceExecFns;
use vstd::utf8::{valid_utf8, decode_utf8};

verus! {

/// The text that `String::from_utf8_lossy` makes of a byte sequence.
pub uninterp spec fn lossy_text(bytes: Seq<u8>) -> Seq<char>;

/// A character with the Unicode `White_Space` property: the controls U+0009 to
/// U+000D, space, U+0085, no-break space, U+1680, U+2000 to U+200A, the line and
/// paragraph separators, U+202F, U+205F and U+3000.
pub open spec fn is_white_space(c: char) -> bool {
    let u = c as u32;
    ||| 0x09 <= u <= 0x0d
    ||| u == 0x20
    ||| u == 0x85
    ||| u == 0xa0
    ||| u == 0x1680
    ||| 0x2000 <= u <= 0x200a
    ||| u == 0x2028
    ||| u == 0x2029
    ||| u == 0x202f
    ||| u == 0x205f
    ||| u == 0x3000
}

/// A text without its leading white space.
pub open spec fn trimmed_start(text: Seq<char>) -> Seq<char>
    decreases text.len(),
{
    if text.len() > 0 && is_white_space(text[0]) {
        trimmed_start(text.drop_first())
    } else {
        text
    }
}

/// A text without its trailing white space.
pub open spec fn trimmed_end(text: Seq<char>) -> Seq<char>
    decreases text.len(),
{
    if text.len() > 0 && is_white_space(text.last()) {
        trimmed_end(text.drop_last())
    } else {
        text
    }
}

/// A text without its leading and trailing white space.
pub open spec fn trimmed(text: Seq<char>) -> Seq<char> {
    trimmed_end(trimmed_start(text))
}

/// Leading white space runs up to a position before which every character is white
/// space and at which, if the text goes on, one is not.
proof fn lemma_trimmed_start_bound(text: Seq<char>) -> (start: int)
    ensures
        0 <= start <= text.len(),
        trimmed_start(text) == text.skip(start),
        forall|i: int| 0 <= i < start ==> is_white_space(text[i]),
        start < text.len() ==> !is_white_space(text[start]),
    decreases text.len(),
{
    if text.len() > 0 && is_white_space(text[0]) {
        let rest = text.drop_first();
        let s = lemma_trimmed_start_bound(rest);
        assert(text.skip(s + 1) == rest.skip(s));
        assert forall|i: int| 0 <= i < s + 1 implies is_white_space(text[i]) by {
            if i > 0 {
                assert(text[i] == rest[i - 1]);
            }
        }
        if s + 1 < text.len() {
            assert(text[s + 1] == rest[s]);
        }
        s + 1
    } else {
        assert(text.skip(0) == text);
        0
    }
}

/// Trailing white space starts at a position from which every character is white
/// space and before which, if there is anything, the last character is not.
proof fn lemma_trimmed_end_bound(text: Seq<char>) -> (end: int)
    ensures
        0 <= end <= text.len(),
        trimmed_end(text) == text.take(end),
        forall|i: int| end <= i < text.len() ==> is_white_space(text[i]),
        end > 0 ==> !is_white_space(text[end - 1]),
    decreases text.len(),
{
    if text.len() > 0 && is_white_space(text.last()) {
        let rest = text.drop_last();
        let e = lemma_trimmed_end_bound(rest);
        assert(text.take(e) == rest.take(e));
        assert forall|i: int| e <= i < text.len() implies is_white_space(text[i]) by {
            if i < text.len() - 1 {
                assert(text[i] == rest[i]);
            }
        }
        if e > 0 {
            assert(text[e - 1] == rest[e - 1]);
        }
        e
    } else {
        assert(text.take(text.len() as int) == text);
        text.len() as int
    }
}

/// Trimming takes off white space at both ends and nothing else: the trimmed text is
/// the part of the text between the two returned positions, everything before and
/// after that part is white space, and the part neither starts nor ends with white
/// space.
pub proof fn law_trimmed_cuts_white_space(text: Seq<char>) -> (bounds: (int, int))
    ensures
        0 <= bounds.0 <= bounds.1 <= text.len(),
        trimmed(text) == text.subrange(bounds.0, bounds.1),
        forall|i: int| 0 <= i < bounds.0 ==> is_white_space(text[i]),
        forall|i: int| bounds.1 <= i < text.len() ==> is_white_space(text[i]),
        bounds.0 < bounds.1 ==> !is_white_space(text[bounds.0]) && !is_white_space(
            text[bounds.1 - 1],
        ),
{
    let start = lemma_trimmed_start_bound(text);
    let head = text.skip(start);
    let e = lemma_trimmed_end_bound(head);
    assert(head.take(e) == text.subrange(start, start + e));
    assert forall|i: int| start + e <= i < text.len() implies is_white_space(text[i]) by {
        assert(text[i] == head[i - start]);
    }
    if e > 0 {
        assert(text[start] == head[0]);
        assert(text[start + e - 1] == head[e - 1]);
    }
    (start, start + e)
}

/// Calls `String::from_utf8_lossy` and takes the text as an owned `String`.
/// Trusted: the result is `lossy_text` of the bytes, a function of the bytes alone,
/// and on valid UTF-8 it is the decoded text unchanged (as std documents).
/// Which replacement characters stand for invalid sequences is left unsaid.
#[verifier::external_body]
pub fn utf8_lossy(bytes: &[u8]) -> (text: String)
    ensures
        text@ == lossy_text(bytes@),
        valid_utf8(bytes@) ==> text@ == decode_utf8(bytes@),
{
    String::from_utf8_lossy(bytes).to_string()
}

/// Whether a character has the Unicode `White_Space` property.
fn white_space(c: char) -> (found: bool)
    ensures
        found == is_white_space(c),
{
    let u = c as u32;
    (0x09 <= u && u <= 0x0d) || u == 0x20 || u == 0x85 || u == 0xa0 || u == 0x1680 || (0x2000 <= u
        && u <= 0x200a) || u == 0x2028 || u == 0x2029 || u == 0x202f || u == 0x205f || u == 0x3000
}

/// A text without its leading and trailing white space, as `str::trim` leaves it.
pub fn trim(text: &str) -> (out: String)
    ensures
        out@ == trimmed(text@),
{
    let len = text.unicode_len();
    let mut start: usize = 0;
    assert(text@.skip(0) == text@);
    while start < len && white_space(text.get_char(start))
        invariant
            start <= len,
            len == text@.len(),
            trimmed_start(text@) == trimmed_start(text@.skip(start as int)),
        decreases len - start,
    {
        assert(text@.skip(start as int).drop_first() == text@.skip(start as int + 1));
        start = start + 1;
    }
    let ghost head = text@.skip(start as int);
    assert(trimmed_start(text@) == head);
    let mut end: usize = len;
    assert(head.take(head.len() as int) == head);
    while end > start && white_space(text.get_char(end - 1))
        invariant
            start <= end <= len,
            len == text@.len(),
            head == text@.skip(start as int),
            trimmed_end(head) == trimmed_end(head.take(end - start)),
        decreases end - start,
    {
        assert(head.take(end - start).drop_last() == head.take(end - start - 1));
        end = end - 1;
    }
    assert(head.take(end - start) == text@.subrange(start as int, end as int));
    text.substring_char(start, end).to_owned()
}

/// Formats three characters one after the other with `format!`.
/// Trusted: the text is exactly those three characters, as `Display` of a `char`
/// writes the character itself.
#[verifier::external_body]
pub fn three_chars(a: char, b: char, c: char) -> (text: String)
    ensures
        text@ == seq![a, b, c],
{
    format!("{}{}{}", a, b, c)
}

} // verus!
