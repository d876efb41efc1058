//! Character-level helpers on strings.
//!
//! Strings are modelled by their sequence of characters (`Seq<char>`), never
//! by their bytes: every index in this module counts characters.

use vstd::prelude::*;

verus! {

/// The character views of a sequence of strings.
pub open spec fn views(v: Seq<String>) -> Seq<Seq<char>> {
    v.map_values(|s: String| s@)
}

/// The pieces of `s` between occurrences of `sep`.
///
/// The empty string is one empty piece; a separator closes the current piece
/// and opens a new empty one; any other character extends the current piece.
/// So there is always one piece more than there are separators.
pub open spec fn split_on(s: Seq<char>, sep: char) -> Seq<Seq<char>>
    decreases s.len(),
{
    if s.len() == 0 {
        seq![Seq::<char>::empty()]
    } else {
        let before = split_on(s.drop_last(), sep);
        if s.last() == sep {
            before.push(Seq::<char>::empty())
        } else {
            before.drop_last().push(before.last().push(s.last()))
        }
    }
}

/// The pieces `parts`, with `sep` put between each two neighbours.
pub open spec fn join(parts: Seq<Seq<char>>, sep: char) -> Seq<char>
    decreases parts.len(),
{
    if parts.len() == 0 {
        Seq::<char>::empty()
    } else if parts.len() == 1 {
        parts[0]
    } else {
        join(parts.drop_last(), sep).push(sep) + parts.last()
    }
}

/// `line` without one trailing carriage return, if it has one.
pub open spec fn strip_cr(line: Seq<char>) -> Seq<char> {
    if line.len() > 0 && line.last() == '\r' {
        line.drop_last()
    } else {
        line
    }
}

/// Whether `s` ends with a line feed.
pub open spec fn ends_with_newline(s: Seq<char>) -> bool {
    s.len() > 0 && s.last() == '\n'
}

/// The lines of `s`.
///
/// A line ends with a line feed, or with a carriage return followed by a line
/// feed; neither is part of the line. The ending of the last line is
/// optional, so a text with a final line feed has the same lines as the text
/// without it. A carriage return that no line feed follows stays in its line.
/// The empty text has no lines.
pub open spec fn lines_of(s: Seq<char>) -> Seq<Seq<char>> {
    if s.len() == 0 {
        Seq::<Seq<char>>::empty()
    } else {
        let closed = ends_with_newline(s);
        let body = if closed { s.drop_last() } else { s };
        let pieces = split_on(body, '\n');
        Seq::new(
            pieces.len(),
            |k: int| if k + 1 < pieces.len() || closed { strip_cr(pieces[k]) } else { pieces[k] },
        )
    }
}

/// Splitting never yields an empty sequence of pieces.
pub proof fn lemma_split_nonempty(s: Seq<char>, sep: char)
    ensures
        split_on(s, sep).len() >= 1,
    decreases s.len(),
{
    if s.len() > 0 {
        lemma_split_nonempty(s.drop_last(), sep);
    }
}

/// Splitting loses nothing and leaves no separator behind: no piece holds
/// `sep`, and joining the pieces with `sep` gives `s` back.
pub proof fn lemma_split_join(s: Seq<char>, sep: char)
    ensures
        join(split_on(s, sep), sep) == s,
        forall|k: int, i: int|
            0 <= k < split_on(s, sep).len() && 0 <= i < split_on(s, sep)[k].len()
                ==> #[trigger] split_on(s, sep)[k][i] != sep,
    decreases s.len(),
{
    if s.len() > 0 {
        let head = s.drop_last();
        let before = split_on(head, sep);
        let now = split_on(s, sep);
        lemma_split_nonempty(head, sep);
        lemma_split_join(head, sep);
        if s.last() == sep {
            assert(now.drop_last() =~= before);
        } else {
            if before.len() > 1 {
                assert(now.drop_last() =~= before.drop_last());
            }
            assert(head.push(s.last()) =~= s);
        }
    }
}

/// `String::push` of the standard library appends one character: the
/// string afterwards is the string before with `ch` at its end.
pub assume_specification[ String::push ](s: &mut String, ch: char)
    ensures
        final(s)@ == old(s)@.push(ch),
;

/// The characters of `s`, in order.
pub fn chars_of(s: &str) -> (out: Vec<char>)
    ensures
        out@ == s@,
{
    let mut out: Vec<char> = Vec::new();
    for c in it: s.chars()
        invariant
            out@ == it.seq().take(it.index() as int),
            it.seq() == s@,
    {
        out.push(c);
    }
    out
}

/// Whether `text` begins with the characters of `prefix`.
pub fn starts_with(text: &Vec<char>, prefix: &Vec<char>) -> (yes: bool)
    ensures
        yes == prefix@.is_prefix_of(text@),
{
    if prefix.len() > text.len() {
        return false;
    }
    let mut i: usize = 0;
    while i < prefix.len()
        invariant
            i <= prefix.len() <= text.len(),
            forall|j: int| 0 <= j < i ==> prefix@[j] == text@[j],
        decreases prefix.len() - i,
    {
        if prefix[i] != text[i] {
            return false;
        }
        i += 1;
    }
    true
}

/// Splits `s` at every occurrence of `sep`.
pub fn split(s: &str, sep: char) -> (out: Vec<String>)
    ensures
        views(out@) == split_on(s@, sep),
{
    let mut out: Vec<String> = Vec::new();
    let mut current = String::new();
    for c in it: s.chars()
        invariant
            it.seq() == s@,
            split_on(s@.take(it.index() as int), sep) == views(out@).push(current@),
    {
        assert(s@.take(it.index() + 1).drop_last() =~= s@.take(it.index() as int));
        if c == sep {
            out.push(current);
            current = String::new();
        } else {
            current.push(c);
        }
    }
    assert(s@.take(s@.len() as int) =~= s@);
    out.push(current);
    out
}

/// Splits `s` into its lines.
pub fn split_lines(s: &str) -> (out: Vec<String>)
    ensures
        views(out@) == lines_of(s@),
{
    let n = s.unicode_len();
    let mut out: Vec<String> = Vec::new();
    if n == 0 {
        return out;
    }
    let closed = s.get_char(n - 1) == '\n';
    let body = if closed {
        s.substring_char(0, n - 1)
    } else {
        s
    };
    let pieces = split(body, '\n');
    let ghost wanted = lines_of(s@);
    let count = pieces.len();
    for k in 0..count
        invariant
            count == pieces.len(),
            views(pieces@) == split_on(body@, '\n'),
            wanted.len() == count,
            forall|j: int|
                0 <= j < count ==> #[trigger] wanted[j] == if j + 1 < count || closed {
                    strip_cr(pieces@[j]@)
                } else {
                    pieces@[j]@
                },
            views(out@) == wanted.take(k as int),
    {
        let piece = pieces[k].as_str();
        let len = piece.unicode_len();
        let line = if (k + 1 < count || closed) && len > 0 && piece.get_char(len - 1) == '\r' {
            piece.substring_char(0, len - 1).to_owned()
        } else {
            piece.to_owned()
        };
        out.push(line);
        assert(wanted.take(k as int + 1) =~= wanted.take(k as int).push(wanted[k as int]));
    }
    out
}

} // verus!
