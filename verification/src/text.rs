//! Text as sequences of characters: containment, lower case, and the lines
//! of a file's content.

use vstd::prelude::*;

verus! {

/// The character sequences of a sequence of strings.
pub open spec fn texts(v: Seq<String>) -> Seq<Seq<char>> {
    Seq::new(v.len(), |i: int| v[i]@)
}

/// `needle` stands in `hay` from position `i` on.
pub open spec fn occurs_at(needle: Seq<char>, hay: Seq<char>, i: int) -> bool {
    &&& 0 <= i
    &&& i + needle.len() <= hay.len()
    &&& hay.subrange(i, i + needle.len()) == needle
}

/// `needle` is a contiguous part of `hay`.
pub open spec fn occurs_in(needle: Seq<char>, hay: Seq<char>) -> bool {
    exists|i: int| occurs_at(needle, hay, i)
}

/// The lower-case form of a text as `str::to_lowercase` gives it.
pub uninterp spec fn lowercase(s: Seq<char>) -> Seq<char>;

/// Calls `str::contains` with a string pattern: whether `needle` is a
/// contiguous part of `hay`.
#[verifier::external_body]
pub(crate) fn contains(hay: &str, needle: &str) -> (found: bool)
    ensures
        found == occurs_in(needle@, hay@),
{
    hay.contains(needle)
}

/// Calls `str::to_lowercase`. Its result depends on the characters alone;
/// the contract only gives it a name.
#[verifier::external_body]
pub(crate) fn to_lowercase(s: &str) -> (low: String)
    ensures
        low@ == lowercase(s@),
{
    s.to_lowercase()
}

/// Calls `String::push`: one more character at the end.
#[verifier::external_body]
pub(crate) fn push_char(text: &mut String, c: char)
    ensures
        final(text)@ == old(text)@.push(c),
{
    text.push(c)
}

/// The characters of a text, in order.
pub fn to_chars(s: &str) -> (chars: Vec<char>)
    ensures
        chars@ == s@,
{
    let mut chars: Vec<char> = Vec::new();
    for c in it: s.chars()
        invariant
            it.seq() == s@,
            chars@ == s@.take(it.index() as int),
    {
        chars.push(c);
    }
    assert(s@.take(s@.len() as int) =~= s@);
    chars
}

/// The text made of these characters.
pub fn from_chars(chars: &Vec<char>) -> (s: String)
    ensures
        s@ == chars@,
{
    let mut s = String::new();
    let mut i: usize = 0;
    while i < chars.len()
        invariant
            i <= chars.len(),
            s@ == chars@.take(i as int),
        decreases chars.len() - i,
    {
        push_char(&mut s, chars[i]);
        assert(chars@.take(i + 1) =~= chars@.take(i as int).push(chars[i as int]));
        i += 1;
    }
    assert(chars@.take(i as int) =~= chars@);
    s
}

/// A line without the carriage return that may end it.
pub open spec fn trim_cr(line: Seq<char>) -> Seq<char> {
    if line.len() > 0 && line.last() == '\r' {
        line.drop_last()
    } else {
        line
    }
}

/// What follows the last separator in `s`: the piece that is still open.
pub open spec fn open_piece(s: Seq<char>, sep: char) -> Seq<char>
    decreases s.len(),
{
    if s.len() == 0 || s.last() == sep {
        Seq::empty()
    } else {
        open_piece(s.drop_last(), sep).push(s.last())
    }
}

/// The pieces of `s` that a separator ends, without the separator; with
/// `cr`, also without a carriage return just before it.
pub open spec fn closed_pieces(s: Seq<char>, sep: char, cr: bool) -> Seq<Seq<char>>
    decreases s.len(),
{
    if s.len() == 0 {
        Seq::empty()
    } else if s.last() == sep {
        closed_pieces(s.drop_last(), sep, cr).push(
            if cr {
                trim_cr(open_piece(s.drop_last(), sep))
            } else {
                open_piece(s.drop_last(), sep)
            },
        )
    } else {
        closed_pieces(s.drop_last(), sep, cr)
    }
}

/// The pieces that the separator cuts `s` into. The last piece needs no
/// separator after it, and a text that ends with one has no empty piece
/// after it.
pub open spec fn pieces_of(s: Seq<char>, sep: char, cr: bool) -> Seq<Seq<char>> {
    if open_piece(s, sep).len() > 0 {
        closed_pieces(s, sep, cr).push(open_piece(s, sep))
    } else {
        closed_pieces(s, sep, cr)
    }
}

/// The lines of a text. A line ends at a line feed; a carriage return just
/// before it belongs to the line ending. The last line needs no line ending,
/// and a text that ends with one has no empty line after it.
pub open spec fn lines_of(s: Seq<char>) -> Seq<Seq<char>> {
    pieces_of(s, '\n', true)
}

/// The items of a list that is written with commas between its items.
pub open spec fn items_of(s: Seq<char>) -> Seq<Seq<char>> {
    pieces_of(s, ',', false)
}

/// Cuts a text into pieces at a separator.
fn split(content: &str, sep: char, cr: bool) -> (pieces: Vec<String>)
    ensures
        texts(pieces@) == pieces_of(content@, sep, cr),
{
    let chars = to_chars(content);
    let mut pieces: Vec<String> = Vec::new();
    let mut current: Vec<char> = Vec::new();
    let mut i: usize = 0;
    assert(chars@.take(0) == Seq::<char>::empty());
    assert(texts(pieces@) == Seq::<Seq<char>>::empty());
    while i < chars.len()
        invariant
            i <= chars.len(),
            texts(pieces@) == closed_pieces(chars@.take(i as int), sep, cr),
            current@ == open_piece(chars@.take(i as int), sep),
        decreases chars.len() - i,
    {
        let c = chars[i];
        proof {
            assert(chars@.take(i + 1).drop_last() == chars@.take(i as int));
            assert(chars@.take(i + 1).last() == c);
        }
        if c == sep {
            if cr && current.len() > 0 && current[current.len() - 1] == '\r' {
                current.pop();
            }
            let piece = from_chars(&current);
            let ghost before = pieces@;
            pieces.push(piece);
            assert(texts(pieces@) == texts(before).push(piece@));
            current = Vec::new();
        } else {
            current.push(c);
        }
        i += 1;
    }
    assert(chars@.take(i as int) == chars@);
    if current.len() > 0 {
        let piece = from_chars(&current);
        let ghost before = pieces@;
        pieces.push(piece);
        assert(texts(pieces@) == texts(before).push(piece@));
    }
    pieces
}

/// Splits a text into its lines.
pub fn split_lines(content: &str) -> (lines: Vec<String>)
    ensures
        texts(lines@) == lines_of(content@),
{
    split(content, '\n', true)
}

/// Splits a list that is written with commas into its items.
pub fn split_list(list: &str) -> (items: Vec<String>)
    ensures
        texts(items@) == items_of(list@),
{
    split(list, ',', false)
}

/// Splits a path into its parts at the slashes.
pub fn split_paths(path: &str) -> (parts: Vec<String>)
    ensures
        texts(parts@) == pieces_of(path@, '/', false),
{
    split(path, '/', false)
}

} // verus!
