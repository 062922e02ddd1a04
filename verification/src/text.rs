//! Texts as lines: what splitting on newlines, joining with newlines and
//! reading line by line mean, and the functions that do them.
use vstd::prelude::*;

verus! {

/// `String::push` appends one character to the end of the string.
pub assume_specification[ String::push ](s: &mut String, c: char)
    ensures
        final(s)@ == old(s)@.push(c),
;

/// The lines of a text: the pieces that its newline characters separate.
/// A text with `n` newlines has `n + 1` lines, so a trailing newline shows
/// up as a trailing empty line and the empty text is one empty line.
pub open spec fn split_lines(s: Seq<char>) -> Seq<Seq<char>>
    decreases s.len(),
{
    if s.len() == 0 {
        seq![Seq::<char>::empty()]
    } else {
        let before = split_lines(s.drop_last());
        if s.last() == '\n' {
            before.push(Seq::<char>::empty())
        } else {
            before.drop_last().push(before.last().push(s.last()))
        }
    }
}

/// The text whose lines are `lines`: the lines with one newline between
/// each two neighbours. No lines at all give the empty text.
pub open spec fn join_lines(lines: Seq<Seq<char>>) -> Seq<char>
    decreases lines.len(),
{
    if lines.len() == 0 {
        Seq::<char>::empty()
    } else if lines.len() == 1 {
        lines[0]
    } else {
        join_lines(lines.drop_last()) + seq!['\n'] + lines.last()
    }
}

/// The character sequences held by a vector of strings.
pub open spec fn text_of(lines: Seq<String>) -> Seq<Seq<char>> {
    Seq::new(lines.len(), |i: int| lines[i]@)
}

/// A line as the line reader hands it out: without the carriage return
/// that stood directly before its newline, if there was one.
pub open spec fn strip_carriage_return(line: Seq<char>) -> Seq<char> {
    if line.len() > 0 && line.last() == '\r' {
        line.drop_last()
    } else {
        line
    }
}

/// The lines of a text as a line reader sees them. A line ends at a newline;
/// a carriage return directly before that newline belongs to the line ending.
/// What follows the last newline is a line of its own only where it is not
/// empty, and it keeps a carriage return at its end. The empty text has no
/// lines.
pub open spec fn read_lines(s: Seq<char>) -> Seq<Seq<char>> {
    let pieces = split_lines(s);
    let ended = Seq::new(
        (pieces.len() - 1) as nat,
        |i: int| strip_carriage_return(pieces[i]),
    );
    if pieces.last().len() == 0 {
        ended
    } else {
        ended.push(pieces.last())
    }
}

/// No newline occurs in `line`.
pub open spec fn newline_free(line: Seq<char>) -> bool {
    forall|i: int| 0 <= i < line.len() ==> line[i] != '\n'
}

/// Every one of `lines` is free of newlines.
pub open spec fn all_newline_free(lines: Seq<Seq<char>>) -> bool {
    forall|i: int| 0 <= i < lines.len() ==> newline_free(#[trigger] lines[i])
}

/// `line` ends with a carriage return.
pub open spec fn ends_with_carriage_return(line: Seq<char>) -> bool {
    line.len() > 0 && line.last() == '\r'
}

/// A text always has at least one line, and no line holds a newline.
pub proof fn lemma_split_lines_shape(s: Seq<char>)
    ensures
        split_lines(s).len() >= 1,
        all_newline_free(split_lines(s)),
    decreases s.len(),
{
    if s.len() > 0 {
        lemma_split_lines_shape(s.drop_last());
        assert forall|i: int| 0 <= i < split_lines(s).len() implies newline_free(
            #[trigger] split_lines(s)[i],
        ) by {}
    }
}

/// Splitting loses nothing: joining the lines of a text gives the text back.
pub proof fn lemma_join_of_split(s: Seq<char>)
    ensures
        join_lines(split_lines(s)) == s,
    decreases s.len(),
{
    if s.len() > 0 {
        let rest = s.drop_last();
        let before = split_lines(rest);
        lemma_join_of_split(rest);
        lemma_split_lines_shape(rest);
        if s.last() == '\n' {
            assert(before.push(Seq::<char>::empty()).drop_last() == before);
        } else {
            let grown = before.last().push(s.last());
            assert(before.drop_last().push(grown).drop_last() == before.drop_last());
            if before.len() > 1 {
                let front = join_lines(before.drop_last()) + seq!['\n'];
                assert(front + grown == (front + before.last()).push(s.last()));
            }
        }
    }
}

/// Text without a newline, put behind another text, only makes that text's
/// last line longer.
pub proof fn lemma_split_of_extended(a: Seq<char>, b: Seq<char>)
    requires
        newline_free(b),
    ensures
        split_lines(a + b) == split_lines(a).drop_last().push(split_lines(a).last() + b),
    decreases b.len(),
{
    lemma_split_lines_shape(a);
    if b.len() > 0 {
        let shorter = b.drop_last();
        lemma_split_of_extended(a, shorter);
        assert((a + b).drop_last() == a + shorter);
        assert((split_lines(a).last() + shorter).push(b.last()) == split_lines(a).last() + b);
    }
}

/// Joining loses nothing either: at least one line, none of them with a
/// newline in it, come back as they were when their join is split.
pub proof fn lemma_split_of_join(lines: Seq<Seq<char>>)
    requires
        lines.len() >= 1,
        all_newline_free(lines),
    ensures
        split_lines(join_lines(lines)) == lines,
    decreases lines.len(),
{
    let nothing = Seq::<char>::empty();
    if lines.len() == 1 {
        lemma_split_of_extended(nothing, lines[0]);
    } else {
        let front = lines.drop_last();
        assert forall|i: int| 0 <= i < front.len() implies newline_free(#[trigger] front[i]) by {}
        lemma_split_of_join(front);
        let head = join_lines(front) + seq!['\n'];
        assert(head.drop_last() == join_lines(front));
        lemma_split_of_extended(head, lines.last());
    }
}

/// A line reader gives the lines of a joined text back unchanged where the
/// last line is not empty and no line before it ends with a carriage return.
pub proof fn lemma_read_of_join(lines: Seq<Seq<char>>)
    requires
        lines.len() >= 1,
        all_newline_free(lines),
        lines.last().len() > 0,
        forall|i: int| 0 <= i < lines.len() - 1 ==> !ends_with_carriage_return(#[trigger] lines[i]),
    ensures
        read_lines(join_lines(lines)) == lines,
{
    lemma_split_of_join(lines);
}

/// The lines of two texts put together, where the first is empty or ends
/// with a newline: the lines of the first without the empty one at its end,
/// then the lines of the second.
pub proof fn lemma_split_of_concat(a: Seq<char>, b: Seq<char>)
    requires
        a.len() == 0 || a.last() == '\n',
    ensures
        split_lines(a + b) == split_lines(a).drop_last() + split_lines(b),
    decreases b.len(),
{
    lemma_split_lines_shape(a);
    if b.len() > 0 {
        let shorter = b.drop_last();
        lemma_split_of_concat(a, shorter);
        lemma_split_lines_shape(shorter);
        assert((a + b).drop_last() == a + shorter);
    }
}

/// A line reader makes one line of a line with its newline.
pub proof fn lemma_read_lines_of_line(line: Seq<char>)
    requires
        newline_free(line),
    ensures
        read_lines(line + seq!['\n']) == seq![strip_carriage_return(line)],
{
    let nothing = Seq::<char>::empty();
    let ended = line + seq!['\n'];
    assert(split_lines(line) == seq![line]) by {
        lemma_split_of_extended(nothing, line);
    }
    assert(split_lines(ended) == seq![line, nothing]) by {
        assert(ended.drop_last() == line);
    }
}

/// A line reader that has read a text which is empty or ends with a newline
/// reads what follows as if it stood alone.
pub proof fn lemma_read_lines_of_concat(a: Seq<char>, b: Seq<char>)
    requires
        a.len() == 0 || a.last() == '\n',
    ensures
        read_lines(a + b) == read_lines(a) + read_lines(b),
{
    lemma_split_of_concat(a, b);
    lemma_split_lines_shape(a);
    lemma_split_lines_shape(b);
}

/// Splits a text into its lines.
pub fn split_newline(s: &str) -> (lines: Vec<String>)
    ensures
        text_of(lines@) == split_lines(s@),
{
    let mut lines: Vec<String> = Vec::new();
    let mut current = String::new();
    let chars = s.chars();
    for c in it: chars
        invariant
            it.seq() == s@,
            text_of(lines@).push(current@) == split_lines(s@.take(it.index())),
    {
        proof {
            assert(s@.take(it.index() + 1).drop_last() == s@.take(it.index()));
        }
        if c == '\n' {
            lines.push(current);
            current = String::new();
        } else {
            current.push(c);
        }
    }
    proof {
        assert(s@.take(s@.len() as int) == s@);
    }
    lines.push(current);
    lines
}

/// Joins lines into one text, with a newline between each two neighbours.
pub fn join_newline(lines: &Vec<String>) -> (s: String)
    ensures
        s@ == join_lines(text_of(lines@)),
{
    let mut joined = String::new();
    let mut i: usize = 0;
    while i < lines.len()
        invariant
            i <= lines.len(),
            joined@ == join_lines(text_of(lines@).take(i as int)),
        decreases lines.len() - i,
    {
        proof {
            assert(text_of(lines@).take(i + 1).drop_last() == text_of(lines@).take(i as int));
            reveal_strlit("\n");
        }
        if i > 0 {
            joined.append("\n");
        }
        joined.append(lines[i].as_str());
        i += 1;
    }
    proof {
        assert(text_of(lines@).take(lines.len() as int) == text_of(lines@));
    }
    joined
}

/// The character sequences held by a vector of character vectors.
pub open spec fn rows_of(lines: Seq<Vec<char>>) -> Seq<Seq<char>> {
    Seq::new(lines.len(), |i: int| lines[i]@)
}

/// Reads a text line by line, as `read_lines` describes.
pub fn read_transcript_lines(s: &str) -> (lines: Vec<Vec<char>>)
    ensures
        rows_of(lines@) == read_lines(s@),
{
    let mut lines: Vec<Vec<char>> = Vec::new();
    let mut current: Vec<char> = Vec::new();
    let chars = s.chars();
    for c in it: chars
        invariant
            it.seq() == s@,
            split_lines(s@.take(it.index())).len() == lines.len() + 1,
            forall|i: int|
                0 <= i < lines.len() ==> #[trigger] lines[i]@ == strip_carriage_return(
                    split_lines(s@.take(it.index()))[i],
                ),
            current@ == split_lines(s@.take(it.index())).last(),
    {
        proof {
            assert(s@.take(it.index() + 1).drop_last() == s@.take(it.index()));
        }
        if c == '\n' {
            let n = current.len();
            if n > 0 && current[n - 1] == '\r' {
                current.pop();
            }
            lines.push(current);
            current = Vec::new();
        } else {
            current.push(c);
        }
    }
    proof {
        assert(s@.take(s@.len() as int) == s@);
    }
    if current.len() > 0 {
        lines.push(current);
    }
    lines
}

/// The characters of a string, in a vector.
pub fn chars_of(s: &str) -> (chars: Vec<char>)
    ensures
        chars@ == s@,
{
    let mut chars: Vec<char> = Vec::new();
    let source = s.chars();
    for c in it: source
        invariant
            it.seq() == s@,
            chars@ == s@.take(it.index()),
    {
        chars.push(c);
    }
    chars
}

/// The string made of the characters of `chars` from index `from` on.
pub(crate) fn string_from(chars: &Vec<char>, from: usize) -> (s: String)
    requires
        from <= chars.len(),
    ensures
        s@ == chars@.skip(from as int),
{
    let mut s = String::new();
    let mut i: usize = from;
    while i < chars.len()
        invariant
            from <= i <= chars.len(),
            s@ == chars@.subrange(from as int, i as int),
        decreases chars.len() - i,
    {
        s.push(chars[i]);
        i += 1;
    }
    s
}

} // verus!
