//! The round trip of `diff` and `undiff`: the transcript of an edit script
//! from one text to another, applied to the first, gives the second, if and
//! only if the line reader reads the transcript back as it was written. A
//! line reader takes a carriage return that stands directly before a newline
//! for a part of the line ending, and that is the only way in which a round
//! trip fails.
use vstd::prelude::*;

use crate::common::{carriage_free, is_edit_script, patched, reads_back};
use crate::replay::{
    cursor_behind, lemma_replay_of_script, lemma_seek, original_side, replay, seek, target_side,
};
use crate::text::{
    all_newline_free, ends_with_carriage_return, join_lines, lemma_join_of_split,
    lemma_read_of_join, lemma_split_lines_shape, lemma_split_of_join, newline_free, read_lines,
    split_lines, strip_carriage_return,
};
use crate::transcript::{
    lemma_parse_of_render, lemma_parse_of_rendered, lemma_verbs, parse_line, parse_lines,
    payload_of, render, rendered, transcript_of, Edit, PatchError,
};

verus! {

/// Every payload of a script without notes is one of the lines that the
/// script names on either side: what holds of all those lines holds of all
/// payloads.
pub proof fn lemma_payloads_are_lines(edits: Seq<Edit>, holds: spec_fn(Seq<char>) -> bool)
    requires
        forall|i: int| 0 <= i < edits.len() ==> !(#[trigger] edits[i] is Note),
        forall|j: int|
            0 <= j < original_side(edits).len() ==> holds(#[trigger] original_side(edits)[j]),
        forall|j: int| 0 <= j < target_side(edits).len() ==> holds(#[trigger] target_side(edits)[j]),
    ensures
        forall|i: int| 0 <= i < edits.len() ==> holds(payload_of(#[trigger] edits[i])),
    decreases edits.len(),
{
    if edits.len() > 0 {
        let rest = edits.drop_first();
        let old = original_side(edits);
        let new = target_side(edits);
        let old_shift: int = if edits[0] is Insert { 0 } else { 1 };
        let new_shift: int = if edits[0] is Delete { 0 } else { 1 };
        assert forall|j: int| 0 <= j < original_side(rest).len() implies holds(
            #[trigger] original_side(rest)[j],
        ) by {
            assert(original_side(rest)[j] == old[j + old_shift]);
        }
        assert forall|j: int| 0 <= j < target_side(rest).len() implies holds(
            #[trigger] target_side(rest)[j],
        ) by {
            assert(target_side(rest)[j] == new[j + new_shift]);
        }
        assert forall|i: int| 0 <= i < rest.len() implies !(#[trigger] rest[i] is Note) by {}
        lemma_payloads_are_lines(rest, holds);
        assert forall|i: int| 0 <= i < edits.len() implies holds(payload_of(#[trigger] edits[i])) by {
            if i == 0 {
                if edits[0] is Insert {
                    assert(new[0] == payload_of(edits[0]));
                } else {
                    assert(old[0] == payload_of(edits[0]));
                }
            } else {
                assert(edits[i] == rest[i - 1]);
            }
        }
    }
}

/// What holds of the rendered lines of an edit script between two texts:
/// there is at least one, none holds a newline, and the last is not empty.
pub proof fn lemma_rendered_shape(original: Seq<char>, target: Seq<char>, edits: Seq<Edit>)
    requires
        is_edit_script(edits, split_lines(original), split_lines(target)),
    ensures
        rendered(edits).len() >= 1,
        all_newline_free(rendered(edits)),
        rendered(edits).last().len() > 0,
        split_lines(transcript_of(edits)) == rendered(edits),
{
    lemma_verbs();
    lemma_split_lines_shape(original);
    lemma_split_lines_shape(target);
    lemma_payloads_are_lines(edits, |line: Seq<char>| newline_free(line));
    assert forall|i: int| 0 <= i < edits.len() implies newline_free(#[trigger] rendered(edits)[i])
        && rendered(edits)[i].len() > 0 by {}
    lemma_split_of_join(rendered(edits));
}

/// The round trip: an edit script from the lines of `original` to the lines
/// of `target`, written out as a transcript and applied to `original`, gives
/// `target`, for every transcript that the line reader reads back as written.
pub proof fn lemma_round_trip(original: Seq<char>, target: Seq<char>, edits: Seq<Edit>)
    requires
        is_edit_script(edits, split_lines(original), split_lines(target)),
        reads_back(transcript_of(edits)),
    ensures
        patched(original, transcript_of(edits)) == Ok::<Seq<char>, PatchError>(target),
{
    lemma_rendered_shape(original, target, edits);
    lemma_parse_of_rendered(edits);
    let lines = split_lines(original);
    assert(lines.skip(0) =~= lines);
    lemma_replay_of_script(lines, 0, edits);
    lemma_join_of_split(target);
}

/// Texts without a carriage return at the end of a line give transcripts
/// that the line reader reads back as written.
pub proof fn lemma_reads_back(original: Seq<char>, target: Seq<char>, edits: Seq<Edit>)
    requires
        is_edit_script(edits, split_lines(original), split_lines(target)),
        carriage_free(original),
        carriage_free(target),
    ensures
        reads_back(transcript_of(edits)),
{
    lemma_verbs();
    lemma_rendered_shape(original, target, edits);
    lemma_payloads_are_lines(edits, |line: Seq<char>| !ends_with_carriage_return(line));
    assert forall|i: int| 0 <= i < edits.len() implies !ends_with_carriage_return(
        #[trigger] rendered(edits)[i],
    ) by {}
    lemma_read_of_join(rendered(edits));
}

/// A transcript that turns a text into itself, applied to the text, gives
/// the text.
pub proof fn lemma_no_op_round_trip(text: Seq<char>, edits: Seq<Edit>)
    requires
        is_edit_script(edits, split_lines(text), split_lines(text)),
        reads_back(transcript_of(edits)),
    ensures
        patched(text, transcript_of(edits)) == Ok::<Seq<char>, PatchError>(text),
{
    lemma_round_trip(text, text, edits);
}

/// The two edits are of one kind.
pub open spec fn same_kind(a: Edit, b: Edit) -> bool {
    &&& a is Delete <==> b is Delete
    &&& a is Insert <==> b is Insert
    &&& a is Equal <==> b is Equal
    &&& a is Note <==> b is Note
}

/// The edit as a line reader hands it out where another line follows: its
/// payload has lost the carriage return at its end, if it had one.
pub open spec fn read_in_passing(edit: Edit) -> Edit {
    match edit {
        Edit::Delete(line) => Edit::Delete(strip_carriage_return(line)),
        Edit::Insert(line) => Edit::Insert(strip_carriage_return(line)),
        Edit::Equal(line) => Edit::Equal(strip_carriage_return(line)),
        Edit::Note(text) => Edit::Note(strip_carriage_return(text)),
    }
}

/// The edits as a line reader hands them out: all but the last have lost the
/// carriage return at the end of their payload.
pub open spec fn read_from_transcript(edits: Seq<Edit>) -> Seq<Edit> {
    Seq::new(
        edits.len(),
        |i: int|
            if i < edits.len() - 1 {
                read_in_passing(edits[i])
            } else {
                edits[i]
            },
    )
}

/// How many lines two scripts name on either side depends on the kinds of
/// their edits alone.
pub proof fn lemma_sides_by_kind(a: Seq<Edit>, b: Seq<Edit>)
    requires
        a.len() == b.len(),
        forall|i: int| 0 <= i < a.len() ==> same_kind(#[trigger] a[i], b[i]),
    ensures
        original_side(a).len() == original_side(b).len(),
        target_side(a).len() == target_side(b).len(),
    decreases a.len(),
{
    if a.len() > 0 {
        assert forall|i: int| 0 <= i < a.drop_first().len() implies same_kind(
            #[trigger] a.drop_first()[i],
            b.drop_first()[i],
        ) by {}
        lemma_sides_by_kind(a.drop_first(), b.drop_first());
    }
}

/// A replay that succeeds finds a line of its own for each delete and goto,
/// and puts out a line at least for each goto and insert.
pub proof fn lemma_replay_needs_lines(lines: Seq<Seq<char>>, cursor: int, edits: Seq<Edit>)
    requires
        0 <= cursor <= lines.len(),
        replay(lines, cursor, edits) is Some,
    ensures
        original_side(edits).len() <= lines.len() - cursor,
        target_side(edits).len() <= replay(lines, cursor, edits)->0.len(),
    decreases edits.len(),
{
    if edits.len() > 0 {
        lemma_seek(lines, cursor, payload_of(edits[0]));
        lemma_replay_needs_lines(lines, cursor_behind(lines, cursor, edits[0]), edits.drop_first());
    }
}

/// What a replay puts out holds no newline where neither the lines nor the
/// payloads hold one.
pub proof fn lemma_replay_newline_free(lines: Seq<Seq<char>>, cursor: int, edits: Seq<Edit>)
    requires
        0 <= cursor <= lines.len(),
        all_newline_free(lines),
        forall|i: int| 0 <= i < edits.len() ==> newline_free(payload_of(#[trigger] edits[i])),
        replay(lines, cursor, edits) is Some,
    ensures
        all_newline_free(replay(lines, cursor, edits)->0),
    decreases edits.len(),
{
    let out = replay(lines, cursor, edits)->0;
    if edits.len() > 0 {
        let rest = edits.drop_first();
        assert forall|i: int| 0 <= i < rest.len() implies newline_free(
            payload_of(#[trigger] rest[i]),
        ) by {}
        lemma_seek(lines, cursor, payload_of(edits[0]));
        lemma_replay_newline_free(lines, cursor_behind(lines, cursor, edits[0]), rest);
    }
    // Every line put out is a line of `lines`, a payload, or a line that the
    // rest of the replay puts out.
    assert forall|i: int| 0 <= i < out.len() implies newline_free(#[trigger] out[i]) by {}
}

/// Only the script itself replays to what the script leaves behind: edits of
/// the same kinds with other payloads fail, or put out other lines.
pub proof fn lemma_only_the_script_replays(
    lines: Seq<Seq<char>>,
    cursor: int,
    edits: Seq<Edit>,
    read: Seq<Edit>,
)
    requires
        0 <= cursor <= lines.len(),
        original_side(edits) == lines.skip(cursor),
        forall|i: int| 0 <= i < edits.len() ==> !(#[trigger] edits[i] is Note),
        read.len() == edits.len(),
        forall|i: int| 0 <= i < read.len() ==> same_kind(#[trigger] read[i], edits[i]),
        replay(lines, cursor, read) == Some(target_side(edits)),
    ensures
        read == edits,
    decreases edits.len(),
{
    if edits.len() > 0 {
        let rest = edits.drop_first();
        let read_rest = read.drop_first();
        let left = target_side(rest);
        assert forall|i: int| 0 <= i < rest.len() implies !(#[trigger] rest[i] is Note) by {}
        assert forall|i: int| 0 <= i < read_rest.len() implies same_kind(
            #[trigger] read_rest[i],
            rest[i],
        ) by {}
        lemma_sides_by_kind(read_rest, rest);
        if edits[0] is Insert {
            // Both sides begin with a payload, and go on alike.
            let after = replay(lines, cursor, read_rest)->0;
            assert((seq![payload_of(read[0])] + after)[0] == (seq![payload_of(edits[0])] + left)[0]);
            assert(after =~= (seq![payload_of(read[0])] + after).skip(1));
            assert(left =~= (seq![payload_of(edits[0])] + left).skip(1));
            lemma_only_the_script_replays(lines, cursor, rest, read_rest);
        } else {
            // The script names the line at the cursor. An anchor that is found
            // only further on leaves fewer lines than the deletes and gotos
            // that follow need, so the anchor read is that line.
            assert(original_side(edits).skip(1) =~= original_side(rest));
            assert(lines.skip(cursor)[0] == lines[cursor]);
            assert(lines.skip(cursor).skip(1) =~= lines.skip(cursor + 1));
            lemma_seek(lines, cursor, payload_of(read[0]));
            lemma_replay_needs_lines(
                lines,
                seek(lines, cursor, payload_of(read[0])) + 1,
                read_rest,
            );
            if edits[0] is Equal {
                let after = replay(lines, cursor + 1, read_rest)->0;
                assert(lines.subrange(cursor, cursor + 1) =~= seq![lines[cursor]]);
                assert(after =~= (seq![lines[cursor]] + after).skip(1));
                assert(left =~= (seq![payload_of(edits[0])] + left).skip(1));
            }
            lemma_only_the_script_replays(lines, cursor + 1, rest, read_rest);
        }
        assert(edits =~= seq![edits[0]] + rest);
    }
}

/// A rendered line that has lost the carriage return at its end renders the
/// edit that has lost it.
pub proof fn lemma_render_read_in_passing(edit: Edit)
    ensures
        strip_carriage_return(render(edit)) == render(read_in_passing(edit)),
{
    lemma_verbs();
}

/// What a line reader makes of the transcript of an edit script: the lines
/// of the edits as it hands them out, which spell those edits.
pub proof fn lemma_read_of_transcript(original: Seq<char>, target: Seq<char>, edits: Seq<Edit>)
    requires
        is_edit_script(edits, split_lines(original), split_lines(target)),
    ensures
        read_lines(transcript_of(edits)) == rendered(read_from_transcript(edits)),
        parse_lines(read_lines(transcript_of(edits))) == Some(read_from_transcript(edits)),
{
    lemma_rendered_shape(original, target, edits);
    let read = read_from_transcript(edits);
    let lines = read_lines(transcript_of(edits));
    assert forall|i: int| 0 <= i < lines.len() implies #[trigger] lines[i] == render(read[i]) by {
        if i < edits.len() - 1 {
            lemma_render_read_in_passing(edits[i]);
        }
    }
    assert forall|i: int| 0 <= i < lines.len() implies parse_line(#[trigger] lines[i]) == Some(
        read[i],
    ) by {
        lemma_parse_of_render(read[i]);
    }
}

/// The round trip fails for every transcript that the line reader does not
/// read back as written: applied to `original`, the transcript of an edit
/// script from `original` to `target` then fails, or gives another text than
/// `target`.
pub proof fn lemma_round_trip_needs_reading_back(
    original: Seq<char>,
    target: Seq<char>,
    edits: Seq<Edit>,
)
    requires
        is_edit_script(edits, split_lines(original), split_lines(target)),
        !reads_back(transcript_of(edits)),
    ensures
        patched(original, transcript_of(edits)) != Ok::<Seq<char>, PatchError>(target),
{
    let lines = split_lines(original);
    let read = read_from_transcript(edits);
    lemma_rendered_shape(original, target, edits);
    lemma_read_of_transcript(original, target, edits);
    if patched(original, transcript_of(edits)) == Ok::<Seq<char>, PatchError>(target) {
        // What the replay puts out is `target` line by line, so the edits
        // that were read are the script itself, and were read as written.
        let out = replay(lines, 0, read)->0;
        lemma_split_lines_shape(original);
        lemma_split_lines_shape(target);
        lemma_sides_by_kind(read, edits);
        lemma_replay_needs_lines(lines, 0, read);
        lemma_payloads_are_lines(edits, |line: Seq<char>| newline_free(line));
        assert forall|i: int| 0 <= i < read.len() implies newline_free(
            payload_of(#[trigger] read[i]),
        ) by {}
        lemma_replay_newline_free(lines, 0, read);
        lemma_split_of_join(out);
        assert(lines.skip(0) =~= lines);
        lemma_only_the_script_replays(lines, 0, edits, read);
    }
}

} // verus!
