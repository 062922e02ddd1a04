//! The diff grammar at work: `diff` encodes the change from one text to
//! another as a transcript, `undiff` applies a transcript to a text, and the
//! laws say how the two fit together.
use similar::{ChangeTag, TextDiff};
use vstd::prelude::*;
use vstd::string::StrSliceExecFns;

use crate::replay::{
    apply_changeset, cursor_after, lemma_anchor_exhaustion, lemma_failed_replay,
    lemma_replay_skips_notes, original_side, replay, target_side,
};
use crate::round_trip::{lemma_reads_back, lemma_round_trip, lemma_round_trip_needs_reading_back};
use crate::text::{
    ends_with_carriage_return, join_lines, join_newline, lemma_join_of_split,
    lemma_read_lines_of_concat, newline_free, read_lines, read_transcript_lines, rows_of,
    split_lines, split_newline, strip_carriage_return, text_of,
};
use crate::transcript::{
    changeset_of, edits_of, lemma_changeset_without_note, lemma_note_line_read,
    lemma_parse_of_render, parse_line, parse_lines, parse_operation, payload_of, render_transcript,
    transcript_of, Edit, Operation, PatchError,
};

verus! {

/// A line-diff algorithm of the `similar` crate.
#[derive(Debug, Clone, Copy, PartialEq, Eq, Structural)]
pub enum Algorithm {
    /// Myers' shortest-edit-script algorithm.
    Myers,
    /// The patience algorithm, which first aligns the lines that occur once.
    Patience,
}

/// `edits` is an edit script from `old` to `new`: it holds no notes, its
/// deletes and gotos name the lines of `old` one after the other, each line
/// once, and its gotos and inserts name the lines of `new` in the same way.
pub open spec fn is_edit_script(edits: Seq<Edit>, old: Seq<Seq<char>>, new: Seq<Seq<char>>) -> bool {
    &&& forall|i: int| 0 <= i < edits.len() ==> !(#[trigger] edits[i] is Note)
    &&& original_side(edits) == old
    &&& target_side(edits) == new
}

/// The changes that `similar` finds between the lines `old` and the lines
/// `new` with the given algorithm and without a deadline.
pub uninterp spec fn line_diff(algorithm: Algorithm, old: Seq<Seq<char>>, new: Seq<Seq<char>>) -> Seq<
    Edit,
>;

/// Calls `similar::TextDiffConfig::diff_slices` with the chosen algorithm and
/// no deadline, and collects what `similar::TextDiff::iter_all_changes`
/// yields, each change as the operation with its tag and its line.
///
/// Not proved: that the changes depend on the algorithm and the two line
/// sequences alone, and that they are an edit script from `old` to `new`, as
/// `similar` documents its diff hooks: the equal and deleted lines are those
/// of `old` in order, the equal and inserted lines those of `new`.
#[verifier::external_body]
fn line_changes(algorithm: Algorithm, old: &Vec<String>, new: &Vec<String>) -> (changes: Vec<
    Operation,
>)
    ensures
        edits_of(changes@) == line_diff(algorithm, text_of(old@), text_of(new@)),
        is_edit_script(edits_of(changes@), text_of(old@), text_of(new@)),
{
    let old: Vec<&str> = old.iter().map(String::as_str).collect();
    let new: Vec<&str> = new.iter().map(String::as_str).collect();
    let algorithm = match algorithm {
        Algorithm::Myers => similar::Algorithm::Myers,
        Algorithm::Patience => similar::Algorithm::Patience,
    };
    let diff = TextDiff::configure().algorithm(algorithm).diff_slices(&old, &new);
    let changes = diff.iter_all_changes().map(|change| (change.tag(), change.value().to_string()));
    changes.map(|(tag, line)| match tag {
        ChangeTag::Delete => Operation::Delete(line),
        ChangeTag::Insert => Operation::Insert(line),
        ChangeTag::Equal => Operation::Equal(line),
    }).collect()
}

/// `transcript` spells an edit script from the lines of `original` to the
/// lines of `target`: one line for each line that is kept, dropped or put in,
/// and no notes.
pub open spec fn encodes(transcript: Seq<char>, original: Seq<char>, target: Seq<char>) -> bool {
    exists|edits: Seq<Edit>|
        is_edit_script(edits, split_lines(original), split_lines(target)) && transcript
            == #[trigger] transcript_of(edits)
}

/// The transcript that one algorithm gives for turning `original` into
/// `target`.
pub open spec fn encoded_with(algorithm: Algorithm, original: Seq<char>, target: Seq<char>) -> Seq<
    char,
> {
    transcript_of(line_diff(algorithm, split_lines(original), split_lines(target)))
}

/// The shorter of two texts by their number of characters; the first where
/// they are equally long.
pub open spec fn shorter_of(first: Seq<char>, second: Seq<char>) -> Seq<char> {
    if second.len() < first.len() {
        second
    } else {
        first
    }
}

/// The transcript for turning `original` into `target`: the shortest of
/// those that the algorithms give, Myers' before patience where both are
/// equally long.
pub open spec fn encoded(original: Seq<char>, target: Seq<char>) -> Seq<char> {
    shorter_of(
        encoded_with(Algorithm::Myers, original, target),
        encoded_with(Algorithm::Patience, original, target),
    )
}

/// What replaying the lines of a transcript against `original` gives: the
/// patched text, or the reason why there is none. One line that spells no
/// operation makes the transcript invalid whatever else it holds; an anchor
/// that is not found fails the replay.
pub open spec fn patched_by_lines(original: Seq<char>, transcript_lines: Seq<Seq<char>>) -> Result<
    Seq<char>,
    PatchError,
> {
    match parse_lines(transcript_lines) {
        None => Err(PatchError::InvalidGrammar),
        Some(edits) => match replay(split_lines(original), 0, edits) {
            None => Err(PatchError::UnmatchedAnchor),
            Some(lines) => Ok(join_lines(lines)),
        },
    }
}

/// What applying `transcript` to `original` gives: the transcript is read
/// line by line, and its lines are replayed against `original`.
pub open spec fn patched(original: Seq<char>, transcript: Seq<char>) -> Result<
    Seq<char>,
    PatchError,
> {
    patched_by_lines(original, read_lines(transcript))
}

/// The line reader sees the lines of `transcript` as they were written: no
/// carriage return stands directly before a newline, and the last line is
/// not empty.
pub open spec fn reads_back(transcript: Seq<char>) -> bool {
    read_lines(transcript) == split_lines(transcript)
}

/// No line of `text` ends with a carriage return.
pub open spec fn carriage_free(text: Seq<char>) -> bool {
    forall|i: int|
        0 <= i < split_lines(text).len() ==> !ends_with_carriage_return(
            #[trigger] split_lines(text)[i],
        )
}

/// An empty transcript changes nothing.
pub proof fn lemma_empty_transcript(original: Seq<char>)
    ensures
        patched(original, Seq::<char>::empty()) == Ok::<Seq<char>, PatchError>(original),
{
    let lines = split_lines(original);
    assert(lines.skip(0) =~= lines);
    lemma_join_of_split(original);
}

/// One line that spells no operation makes the whole transcript invalid,
/// whatever the other lines hold and whatever the original is.
pub proof fn lemma_invalid_line(original: Seq<char>, transcript: Seq<char>, i: int)
    requires
        0 <= i < read_lines(transcript).len(),
        parse_line(read_lines(transcript)[i]) is None,
    ensures
        patched(original, transcript) == Err::<Seq<char>, PatchError>(PatchError::InvalidGrammar),
{
}

/// A delete or goto whose payload equals no line of what is left of the
/// original when its turn comes makes the application fail.
pub proof fn lemma_unmatched_anchor(original: Seq<char>, transcript: Seq<char>, i: int)
    requires
        parse_lines(read_lines(transcript)) is Some,
        0 <= i < parse_lines(read_lines(transcript))->0.len(),
        ({
            let edits = parse_lines(read_lines(transcript))->0;
            let lines = split_lines(original);
            &&& edits[i] is Delete || edits[i] is Equal
            &&& cursor_after(lines, 0, edits.take(i)) matches Some(reached) ==> forall|j: int|
                reached <= j < lines.len() ==> lines[j] != payload_of(edits[i])
        }),
    ensures
        patched(original, transcript) == Err::<Seq<char>, PatchError>(PatchError::UnmatchedAnchor),
{
    let edits = parse_lines(read_lines(transcript))->0;
    lemma_anchor_exhaustion(split_lines(original), 0, edits, i);
}

/// The application fails with an unmatched anchor only where a delete or
/// goto is exhausted: the transcript is valid, and the lemma hands out the
/// index of an operation whose payload equals no line of what is left of the
/// original when its turn comes.
pub proof fn lemma_unmatched_anchor_only_then(original: Seq<char>, transcript: Seq<char>) -> (i:
    int)
    requires
        patched(original, transcript) == Err::<Seq<char>, PatchError>(PatchError::UnmatchedAnchor),
    ensures
        parse_lines(read_lines(transcript)) is Some,
        0 <= i < parse_lines(read_lines(transcript))->0.len(),
        ({
            let edits = parse_lines(read_lines(transcript))->0;
            let lines = split_lines(original);
            &&& edits[i] is Delete || edits[i] is Equal
            &&& cursor_after(lines, 0, edits.take(i)) matches Some(reached) && forall|j: int|
                reached <= j < lines.len() ==> lines[j] != payload_of(edits[i])
        }),
{
    lemma_failed_replay(split_lines(original), 0, parse_lines(read_lines(transcript))->0)
}

/// A note line put anywhere between the lines of a transcript changes
/// nothing of what the transcript does, be the transcript valid or not.
pub proof fn lemma_note_transparency(
    original: Seq<char>,
    transcript_lines: Seq<Seq<char>>,
    at: int,
    text: Seq<char>,
)
    requires
        0 <= at <= transcript_lines.len(),
    ensures
        patched_by_lines(original, transcript_lines.insert(at, "note "@ + text))
            == patched_by_lines(original, transcript_lines),
{
    let note = "note "@ + text;
    let with_note = transcript_lines.insert(at, note);
    lemma_parse_of_render(Edit::Note(text));
    if parse_lines(transcript_lines) is None {
        let j = choose|j: int|
            0 <= j < transcript_lines.len() && parse_line(#[trigger] transcript_lines[j]) is None;
        if j < at {
            assert(with_note[j] == transcript_lines[j]);
        } else {
            assert(with_note[j + 1] == transcript_lines[j]);
        }
    } else {
        let edits = parse_lines(transcript_lines)->0;
        assert forall|j: int| 0 <= j < with_note.len() implies parse_line(#[trigger] with_note[j])
            == Some(edits.insert(at, Edit::Note(text))[j]) by {}
        assert(parse_lines(with_note)->0 =~= edits.insert(at, Edit::Note(text)));
        lemma_changeset_without_note(edits, at, text);
        let lines = split_lines(original);
        lemma_replay_skips_notes(lines, 0, edits);
        lemma_replay_skips_notes(lines, 0, edits.insert(at, Edit::Note(text)));
    }
}

/// A note line written into a transcript at the start of a line changes
/// nothing of what the transcript does.
pub proof fn lemma_note_line_transparency(
    original: Seq<char>,
    before: Seq<char>,
    text: Seq<char>,
    after: Seq<char>,
)
    requires
        before.len() == 0 || before.last() == '\n',
        newline_free(text),
    ensures
        patched(original, before + ("note "@ + text + seq!['\n']) + after) == patched(
            original,
            before + after,
        ),
{
    let ended = "note "@ + text + seq!['\n'];
    let kept = strip_carriage_return(text);
    let read = "note "@ + kept;
    let read_before = read_lines(before);
    let read_after = read_lines(after);
    assert(read_lines(ended) == seq![read]) by {
        lemma_note_line_read(text);
    }
    assert(read_lines(before + after) == read_before + read_after) by {
        lemma_read_lines_of_concat(before, after);
    }
    assert(read_lines(before + ended + after) == read_before + seq![read] + read_after) by {
        lemma_read_lines_of_concat(before, ended);
        lemma_read_lines_of_concat(before + ended, after);
    }
    let at = read_before.len() as int;
    assert((read_before + read_after).insert(at, read) =~= read_before + seq![read] + read_after);
    lemma_note_transparency(original, read_before + read_after, at, kept);
}

/// Parses a transcript into its changeset: the operations that its lines
/// spell, notes left out. One line that spells no operation makes the whole
/// transcript invalid.
pub fn get_changeset(diff: &str) -> (changeset: Result<Vec<Operation>, PatchError>)
    ensures
        match changeset {
            Ok(operations) => parse_lines(read_lines(diff@)) matches Some(edits) && edits_of(
                operations@,
            ) == changeset_of(edits),
            Err(e) => e == PatchError::InvalidGrammar && parse_lines(read_lines(diff@)) is None,
        },
{
    let lines = read_transcript_lines(diff);
    let mut changeset: Vec<Operation> = Vec::new();
    let ghost mut edits: Seq<Edit> = Seq::empty();
    let mut i: usize = 0;
    while i < lines.len()
        invariant
            i <= lines.len(),
            rows_of(lines@) == read_lines(diff@),
            edits.len() == i,
            forall|j: int| 0 <= j < i ==> parse_line(#[trigger] lines[j]@) == Some(edits[j]),
            edits_of(changeset@) == changeset_of(edits),
        decreases lines.len() - i,
    {
        proof {
            assert(rows_of(lines@)[i as int] == lines[i as int]@);
        }
        match parse_operation(&lines[i]) {
            Ok(operation) => {
                proof {
                    reveal(Seq::filter);
                    assert(edits.push(operation@).drop_last() == edits);
                    edits = edits.push(operation@);
                }
                match operation {
                    Operation::Note(_) => {},
                    _ => {
                        changeset.push(operation);
                    },
                }
            },
            Err(e) => {
                return Err(e);
            },
        }
        i += 1;
    }
    proof {
        assert(parse_lines(read_lines(diff@))->0 =~= edits);
    }
    Ok(changeset)
}

/// Applies the transcript `diff` to the text `selected`.
///
/// The transcript is read line by line and every line has to spell an
/// operation, else nothing is applied. Its changeset is then replayed against
/// the lines of `selected`, and the lines that come out are joined again.
pub fn undiff(selected: &str, diff: &str) -> (result: Result<String, PatchError>)
    ensures
        match result {
            Ok(text) => patched(selected@, diff@) == Ok::<Seq<char>, PatchError>(text@),
            Err(e) => patched(selected@, diff@) == Err::<Seq<char>, PatchError>(e),
        },
{
    let changeset = match get_changeset(diff) {
        Ok(changeset) => changeset,
        Err(e) => {
            return Err(e);
        },
    };
    proof {
        let edits = parse_lines(read_lines(diff@))->0;
        lemma_replay_skips_notes(split_lines(selected@), 0, edits);
    }
    let lines = split_newline(selected);
    match apply_changeset(&lines, &changeset) {
        Ok(out) => Ok(join_newline(&out)),
        Err(e) => Err(e),
    }
}

/// Picks the shorter of two transcripts by their number of characters, and
/// the first where they are equally long.
pub fn pick_shorter(first: String, second: String) -> (picked: String)
    ensures
        picked@ == shorter_of(first@, second@),
{
    if second.as_str().unicode_len() < first.as_str().unicode_len() {
        second
    } else {
        first
    }
}

/// Encodes the change from `selected` to `result` as a transcript, with one
/// algorithm.
pub fn diff_inner(selected: &str, result: &str, algo: Algorithm) -> (transcript: String)
    ensures
        transcript@ == encoded_with(algo, selected@, result@),
        encodes(transcript@, selected@, result@),
        patched(selected@, transcript@) == Ok::<Seq<char>, PatchError>(result@) <==> reads_back(
            transcript@,
        ),
        carriage_free(selected@) && carriage_free(result@) ==> reads_back(transcript@),
{
    let old = split_newline(selected);
    let new = split_newline(result);
    let changes = line_changes(algo, &old, &new);
    proof {
        let edits = edits_of(changes@);
        if reads_back(transcript_of(edits)) {
            lemma_round_trip(selected@, result@, edits);
        } else {
            lemma_round_trip_needs_reading_back(selected@, result@, edits);
        }
        if carriage_free(selected@) && carriage_free(result@) {
            lemma_reads_back(selected@, result@, edits);
        }
    }
    render_transcript(&changes)
}

/// Encodes the change from `selected` to `result` as a transcript: the
/// shortest of those that the algorithms give, Myers' before patience where
/// both are equally long. Two texts can always be encoded.
///
/// Applied to `selected`, the transcript gives `result` back if and only if
/// no carriage return at the end of one of its lines is lost in reading it,
/// which cannot happen where no line of the two texts ends with one.
pub fn diff(selected: &str, result: &str) -> (transcript: String)
    ensures
        transcript@ == encoded(selected@, result@),
        encodes(transcript@, selected@, result@),
        patched(selected@, transcript@) == Ok::<Seq<char>, PatchError>(result@) <==> reads_back(
            transcript@,
        ),
        carriage_free(selected@) && carriage_free(result@) ==> reads_back(transcript@),
{
    let myers = diff_inner(selected, result, Algorithm::Myers);
    let patience = diff_inner(selected, result, Algorithm::Patience);
    pick_shorter(myers, patience)
}

} // verus!
