//! The diff grammar: the operations of a transcript, how a line spells one,
//! and how one is written as a line.
use vstd::prelude::*;
use vstd::string::StringExecFns;

use crate::text::{
    join_lines, join_newline, lemma_read_lines_of_line, newline_free, read_lines, string_from,
    strip_carriage_return, text_of,
};

verus! {

/// One operation of a transcript, as the mathematical value that contracts
/// speak of: the kind of operation and the characters of its payload.
pub enum Edit {
    /// The next line of the original equal to the payload is dropped.
    Delete(Seq<char>),
    /// The payload is put out as a new line.
    Insert(Seq<char>),
    /// The original is copied through up to and including the next line
    /// equal to the payload.
    Equal(Seq<char>),
    /// Free text of the transcript's author, without effect.
    Note(Seq<char>),
}

/// One operation of a transcript.
#[derive(Debug, Clone, PartialEq, Eq)]
pub enum Operation {
    /// `delete <payload>`: the next line of the original equal to the
    /// payload is dropped.
    Delete(String),
    /// `insert <payload>`: the payload is put out as a new line.
    Insert(String),
    /// `goto <payload>`: the original is copied through up to and including
    /// the next line equal to the payload.
    Equal(String),
    /// `note <payload>`: free text of the transcript's author, without
    /// effect.
    Note(String),
}

impl View for Operation {
    type V = Edit;

    open spec fn view(&self) -> Edit {
        match self {
            Operation::Delete(line) => Edit::Delete(line@),
            Operation::Insert(line) => Edit::Insert(line@),
            Operation::Equal(line) => Edit::Equal(line@),
            Operation::Note(text) => Edit::Note(text@),
        }
    }
}

/// The edits held by a vector of operations.
pub open spec fn edits_of(operations: Seq<Operation>) -> Seq<Edit> {
    Seq::new(operations.len(), |i: int| operations[i]@)
}

/// Why a transcript could not be applied.
#[derive(Debug, Clone, Copy, PartialEq, Eq, Structural)]
pub enum PatchError {
    /// A line of the transcript begins with none of the four verbs.
    InvalidGrammar,
    /// A `delete` or `goto` names a line that does not occur in what is left
    /// of the original.
    UnmatchedAnchor,
}

impl PatchError {
    /// The words that describe the error.
    pub open spec fn message_text(self) -> Seq<char> {
        match self {
            PatchError::InvalidGrammar => "invalid diff format, every line should start with delete, insert, goto or note"@,
            PatchError::UnmatchedAnchor => "selected text is shorter than the diff"@,
        }
    }

    /// The words that describe the error, for a person to read.
    pub fn message(&self) -> (text: String)
        ensures
            text@ == self.message_text(),
    {
        match self {
            PatchError::InvalidGrammar => String::from_str(
                "invalid diff format, every line should start with delete, insert, goto or note",
            ),
            PatchError::UnmatchedAnchor => String::from_str(
                "selected text is shorter than the diff",
            ),
        }
    }
}

/// The payload of an edit.
pub open spec fn payload_of(edit: Edit) -> Seq<char> {
    match edit {
        Edit::Delete(line) => line,
        Edit::Insert(line) => line,
        Edit::Equal(line) => line,
        Edit::Note(text) => text,
    }
}

/// What a line of a transcript says, or `None` where it begins with none of
/// `delete `, `insert `, `goto ` and `note `. The payload is all that follows
/// the verb and its one space, and may be empty.
pub open spec fn parse_line(line: Seq<char>) -> Option<Edit> {
    if "delete "@.is_prefix_of(line) {
        Some(Edit::Delete(line.skip("delete "@.len() as int)))
    } else if "insert "@.is_prefix_of(line) {
        Some(Edit::Insert(line.skip("insert "@.len() as int)))
    } else if "goto "@.is_prefix_of(line) {
        Some(Edit::Equal(line.skip("goto "@.len() as int)))
    } else if "note "@.is_prefix_of(line) {
        Some(Edit::Note(line.skip("note "@.len() as int)))
    } else {
        None
    }
}

/// The operations that the lines of a transcript spell, in order, or `None`
/// where one of the lines spells none.
pub open spec fn parse_lines(lines: Seq<Seq<char>>) -> Option<Seq<Edit>> {
    if forall|i: int| 0 <= i < lines.len() ==> parse_line(#[trigger] lines[i]) is Some {
        Some(Seq::new(lines.len(), |i: int| parse_line(lines[i])->0))
    } else {
        None
    }
}

/// The changeset of a transcript: its operations without the notes.
pub open spec fn changeset_of(edits: Seq<Edit>) -> Seq<Edit> {
    edits.filter(|e: Edit| !(e is Note))
}

/// The line of a transcript that spells `edit`: its verb, one space and its
/// payload.
pub open spec fn render(edit: Edit) -> Seq<char> {
    match edit {
        Edit::Delete(line) => "delete "@ + line,
        Edit::Insert(line) => "insert "@ + line,
        Edit::Equal(line) => "goto "@ + line,
        Edit::Note(text) => "note "@ + text,
    }
}

/// The lines of the transcript that spells `edits`, one line for each.
pub open spec fn rendered(edits: Seq<Edit>) -> Seq<Seq<char>> {
    Seq::new(edits.len(), |i: int| render(edits[i]))
}

/// The transcript that spells `edits`: one line for each, with a newline
/// between each two lines and none at the end.
pub open spec fn transcript_of(edits: Seq<Edit>) -> Seq<char> {
    join_lines(rendered(edits))
}

/// The four verbs as their characters.
pub proof fn lemma_verbs()
    ensures
        "delete "@ == seq!['d', 'e', 'l', 'e', 't', 'e', ' '],
        "insert "@ == seq!['i', 'n', 's', 'e', 'r', 't', ' '],
        "goto "@ == seq!['g', 'o', 't', 'o', ' '],
        "note "@ == seq!['n', 'o', 't', 'e', ' '],
{
    reveal_strlit("delete ");
    reveal_strlit("insert ");
    reveal_strlit("goto ");
    reveal_strlit("note ");
}

/// A rendered line spells the edit it was rendered from, and nothing else.
pub proof fn lemma_parse_of_render(edit: Edit)
    ensures
        parse_line(render(edit)) == Some(edit),
{
    lemma_verbs();
    let verb_length: int = match edit {
        Edit::Delete(_) => 7,
        Edit::Insert(_) => 7,
        Edit::Equal(_) => 5,
        Edit::Note(_) => 5,
    };
    assert(render(edit).skip(verb_length) =~= payload_of(edit));
}

/// The lines of a rendered transcript spell the edits it was rendered from.
pub proof fn lemma_parse_of_rendered(edits: Seq<Edit>)
    ensures
        parse_lines(rendered(edits)) == Some(edits),
{
    assert forall|i: int| 0 <= i < edits.len() implies parse_line(#[trigger] rendered(edits)[i])
        == Some(edits[i]) by {
        lemma_parse_of_render(edits[i]);
    }
}

/// What a line reader makes of a note line with its newline: the one line,
/// without the carriage return that stood at the end of the note's text, if
/// one stood there.
pub proof fn lemma_note_line_read(text: Seq<char>)
    requires
        newline_free(text),
    ensures
        read_lines("note "@ + text + seq!['\n']) == seq!["note "@ + strip_carriage_return(text)],
{
    lemma_verbs();
    let line = "note "@ + text;
    assert forall|k: int| 0 <= k < line.len() implies line[k] != '\n' by {}
    lemma_read_lines_of_line(line);
    assert(strip_carriage_return(line) =~= "note "@ + strip_carriage_return(text));
}

/// A note put between the lines of a transcript leaves its changeset as it
/// was.
pub proof fn lemma_changeset_without_note(edits: Seq<Edit>, at: int, text: Seq<char>)
    requires
        0 <= at <= edits.len(),
    ensures
        changeset_of(edits.insert(at, Edit::Note(text))) == changeset_of(edits),
{
    let keep = |e: Edit| !(e is Note);
    let note = seq![Edit::Note(text)];
    let front = edits.take(at);
    let back = edits.skip(at);
    assert(edits.insert(at, Edit::Note(text)) =~= front + note + back);
    assert(edits =~= front + back);
    assert(note.filter(keep) == Seq::<Edit>::empty()) by {
        reveal_with_fuel(Seq::filter, 2);
    }
    Seq::filter_distributes_over_add(front, note, keep);
    Seq::filter_distributes_over_add(front + note, back, keep);
    Seq::filter_distributes_over_add(front, back, keep);
}

/// Tells whether `line` begins with `prefix`, and hands out what follows it.
pub fn strip_prefix(line: &Vec<char>, prefix: &str) -> (rest: Option<String>)
    ensures
        rest is Some <==> prefix@.is_prefix_of(line@),
        rest matches Some(payload) ==> payload@ == line@.skip(prefix@.len() as int),
{
    let mut n: usize = 0;
    let letters = prefix.chars();
    for c in it: letters
        invariant
            it.seq() == prefix@,
            n == it.index(),
            n <= line.len(),
            forall|j: int| 0 <= j < n ==> line[j] == prefix@[j],
    {
        if n >= line.len() || line[n] != c {
            return None;
        }
        n += 1;
    }
    Some(string_from(line, n))
}

/// Reads one line of a transcript.
pub fn parse_operation(line: &Vec<char>) -> (operation: Result<Operation, PatchError>)
    ensures
        match operation {
            Ok(op) => parse_line(line@) == Some(op@),
            Err(e) => e == PatchError::InvalidGrammar && parse_line(line@) is None,
        },
{
    if let Some(payload) = strip_prefix(line, "delete ") {
        Ok(Operation::Delete(payload))
    } else if let Some(payload) = strip_prefix(line, "insert ") {
        Ok(Operation::Insert(payload))
    } else if let Some(payload) = strip_prefix(line, "goto ") {
        Ok(Operation::Equal(payload))
    } else if let Some(text) = strip_prefix(line, "note ") {
        Ok(Operation::Note(text))
    } else {
        Err(PatchError::InvalidGrammar)
    }
}

/// Writes one operation as a line of a transcript.
pub fn render_operation(operation: &Operation) -> (line: String)
    ensures
        line@ == render(operation@),
{
    match operation {
        Operation::Delete(payload) => String::from_str("delete ").concat(payload.as_str()),
        Operation::Insert(payload) => String::from_str("insert ").concat(payload.as_str()),
        Operation::Equal(payload) => String::from_str("goto ").concat(payload.as_str()),
        Operation::Note(text) => String::from_str("note ").concat(text.as_str()),
    }
}

/// Writes operations as a transcript: one line for each, with a newline
/// between each two lines and none at the end.
pub fn render_transcript(operations: &Vec<Operation>) -> (transcript: String)
    ensures
        transcript@ == transcript_of(edits_of(operations@)),
{
    let mut lines: Vec<String> = Vec::new();
    let mut i: usize = 0;
    while i < operations.len()
        invariant
            i <= operations.len(),
            text_of(lines@) == rendered(edits_of(operations@)).take(i as int),
        decreases operations.len() - i,
    {
        let ghost written = text_of(lines@);
        let line = render_operation(&operations[i]);
        lines.push(line);
        proof {
            assert(rendered(edits_of(operations@)).take(i + 1) =~= written.push(line@));
        }
        i += 1;
    }
    proof {
        assert(rendered(edits_of(operations@)).take(operations.len() as int) == rendered(
            edits_of(operations@),
        ));
    }
    join_newline(&lines)
}

} // verus!
