//! Telling whether a listing starts with the header line.

use vstd::prelude::*;
use vstd::std_specs::iter::IteratorSpec;

verus! {

/// The header line that an inventory listing may start with: the names of the
/// four columns, in order.
pub const HEADER: &'static str = "QuantityX,Name,Edition code,Foil";

/// The characters of [`HEADER`].
pub open spec fn header_line() -> Seq<char> {
    "QuantityX,Name,Edition code,Foil"@
}

/// Where the first line of `text` ends: the index of its first line feed, or
/// its length where it holds none.
pub open spec fn line_end(text: Seq<char>) -> int
    decreases text.len(),
{
    if text.len() == 0 || text[0] == '\n' {
        0
    } else {
        1 + line_end(text.drop_first())
    }
}

/// The first line of `text`, without its line ending.
///
/// An empty text has no line. Otherwise the line runs up to the first line
/// feed, or to the end of the text where there is none; a carriage return
/// directly before that line feed belongs to the line ending.
pub open spec fn first_line(text: Seq<char>) -> Option<Seq<char>> {
    if text.len() == 0 {
        None
    } else {
        let end = line_end(text);
        let line = text.subrange(0, end);
        if 0 < end < text.len() && line.last() == '\r' {
            Some(line.drop_last())
        } else {
            Some(line)
        }
    }
}

/// The first line of `text` is the header line, character for character.
pub open spec fn has_header_line(text: Seq<char>) -> bool {
    first_line(text) == Some(header_line())
}

/// `text` begins with the characters of `prefix`.
pub open spec fn begins_with(text: Seq<char>, prefix: Seq<char>) -> bool {
    prefix.len() <= text.len() && text.subrange(0, prefix.len() as int) == prefix
}

/// `line_end` is the only index up to which `text` holds no line feed and at
/// which it holds one or ends.
pub proof fn lemma_line_end(text: Seq<char>)
    ensures
        0 <= line_end(text) <= text.len(),
        forall|j: int| 0 <= j < line_end(text) ==> text[j] != '\n',
        line_end(text) < text.len() ==> text[line_end(text)] == '\n',
    decreases text.len(),
{
    if text.len() == 0 || text[0] == '\n' {
    } else {
        let rest = text.drop_first();
        lemma_line_end(rest);
        assert forall|j: int| 0 <= j < line_end(text) implies text[j] != '\n' by {
            if j > 0 {
                assert(text[j] == rest[j - 1]);
            }
        }
        if line_end(text) < text.len() {
            assert(text[line_end(text)] == rest[line_end(rest)]);
        }
    }
}

/// An index up to which `text` holds no line feed, and at which it holds one
/// or ends, is where its first line ends.
pub proof fn lemma_line_end_is(text: Seq<char>, end: int)
    requires
        0 <= end <= text.len(),
        forall|j: int| 0 <= j < end ==> text[j] != '\n',
        end < text.len() ==> text[end] == '\n',
    ensures
        line_end(text) == end,
{
    lemma_line_end(text);
}

/// The header line is 32 characters long and holds neither a line feed nor a
/// carriage return.
pub proof fn lemma_header_line()
    ensures
        header_line().len() == 32,
        forall|j: int|
            0 <= j < 32 ==> (#[trigger] header_line()[j]) != '\n' && header_line()[j] != '\r',
{
    reveal_strlit("QuantityX,Name,Edition code,Foil");
}

/// A text has the header line as its first line exactly when it begins with
/// the header line and goes on with nothing, with a line feed, or with a
/// carriage return and a line feed.
pub proof fn lemma_has_header_line(text: Seq<char>)
    ensures
        has_header_line(text) <==> begins_with(text, header_line()) && (text.len() == 32
            || text[32] == '\n' || (text.len() > 33 && text[32] == '\r' && text[33] == '\n')),
{
    let header = header_line();
    lemma_header_line();
    lemma_line_end(text);
    let end = line_end(text);
    let line = text.subrange(0, end);
    if begins_with(text, header) {
        assert forall|j: int| 0 <= j < 32 implies text[j] != '\n' && text[j] != '\r' by {
            assert(text[j] == text.subrange(0, 32)[j]);
            assert(text[j] == header[j]);
        }
        if text.len() == 32 {
            lemma_line_end_is(text, 32);
            assert(line =~= header);
        } else if text[32] == '\n' {
            lemma_line_end_is(text, 32);
            assert(line =~= header);
            assert(line.last() == header[31]);
        } else if text.len() > 33 && text[32] == '\r' && text[33] == '\n' {
            lemma_line_end_is(text, 33);
            assert(line.last() == '\r');
            assert(line.drop_last() =~= header);
        } else {
            if has_header_line(text) {
                if 0 < end < text.len() && line.last() == '\r' {
                    assert(line.drop_last().len() == 32);
                    assert(end == 33);
                    assert(text[32] == line[32]);
                } else {
                    assert(line.len() == 32);
                }
            }
        }
    } else {
        if has_header_line(text) {
            if 0 < end < text.len() && line.last() == '\r' {
                assert(line.drop_last().len() == 32);
                assert(text.subrange(0, 32) =~= line.drop_last());
            } else {
                assert(line.len() == 32);
                assert(text.subrange(0, 32) =~= line);
            }
        }
    }
}

/// The header line is found at the start of a listing whatever follows its
/// line ending.
pub proof fn lemma_header_is_found(rest: Seq<char>)
    ensures
        has_header_line(header_line()),
        has_header_line(header_line() + seq!['\n'] + rest),
        has_header_line(header_line() + seq!['\r', '\n'] + rest),
{
    let header = header_line();
    lemma_header_line();
    let unix = header + seq!['\n'] + rest;
    let dos = header + seq!['\r', '\n'] + rest;
    lemma_has_header_line(header);
    lemma_has_header_line(unix);
    lemma_has_header_line(dos);
    assert(header.subrange(0, 32) =~= header);
    assert(unix.subrange(0, 32) =~= header);
    assert(dos.subrange(0, 32) =~= header);
    assert(unix[32] == '\n');
    assert(dos[32] == '\r' && dos[33] == '\n');
}

/// Tells whether the first line of `text` is the header line.
///
/// No more than the first 34 characters of `text` are read.
pub fn has_header(text: &str) -> (found: bool)
    ensures
        found == has_header_line(text@),
{
    broadcast use vstd::string::group_string_axioms;

    proof {
        lemma_header_line();
        lemma_has_header_line(text@);
    }
    let width = HEADER.unicode_len();
    let mut rest = text.chars();
    assert(text@.skip(0) =~= text@);
    let mut i: usize = 0;
    while i < width
        invariant
            i <= width,
            width == 32,
            i <= text@.len(),
            HEADER@ == header_line(),
            header_line().len() == 32,
            rest.remaining() == text@.skip(i as int),
            forall|j: int| 0 <= j < i ==> text@[j] == header_line()[j],
            !begins_with(text@, header_line()) ==> !has_header_line(text@),
        decreases width - i,
    {
        match rest.next() {
            None => {
                return false;
            },
            Some(c) => {
                assert(c == text@[i as int]);
                assert(text@.skip(i as int).drop_first() =~= text@.skip(i + 1));
                if c != HEADER.get_char(i) {
                    proof {
                        if text@.len() >= 32 {
                            assert(text@.subrange(0, 32)[i as int] == text@[i as int]);
                        }
                    }
                    return false;
                }
            },
        }
        i += 1;
    }
    assert(text@.subrange(0, 32) =~= header_line());
    match rest.next() {
        None => true,
        Some(c) => {
            assert(c == text@[32]);
            assert(text@.skip(32).drop_first() =~= text@.skip(33));
            if c == '\n' {
                true
            } else if c == '\r' {
                match rest.next() {
                    None => false,
                    Some(d) => {
                        assert(d == text@[33]);
                        d == '\n'
                    },
                }
            } else {
                false
            }
        },
    }
}

} // verus!
