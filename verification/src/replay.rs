//! The replay of a changeset against the lines of a text, with a cursor that
//! finds each anchor by its content and never moves back.
use vstd::prelude::*;

use crate::text::text_of;
use crate::transcript::{changeset_of, edits_of, payload_of, Edit, Operation, PatchError};

verus! {

/// The index of the first line at or after `from` that equals `anchor`, or
/// the number of lines where there is none.
pub open spec fn seek(lines: Seq<Seq<char>>, from: int, anchor: Seq<char>) -> int
    decreases lines.len() - from,
{
    if from < 0 || from >= lines.len() {
        lines.len() as int
    } else if lines[from] == anchor {
        from
    } else {
        seek(lines, from + 1, anchor)
    }
}

/// `head` put in front of `tail`, where there is a `tail`.
pub open spec fn preceded_by(head: Seq<Seq<char>>, tail: Option<Seq<Seq<char>>>) -> Option<
    Seq<Seq<char>>,
> {
    match tail {
        Some(lines) => Some(head + lines),
        None => None,
    }
}

/// The lines that come out when `edits` are replayed against `lines` with the
/// cursor standing at `cursor`, or `None` where an anchor is not found.
///
/// An insert puts its payload out and leaves the cursor alone. A delete moves
/// the cursor to the first line from it on that equals the payload, puts out
/// the lines passed over, and steps over the matching line without putting it
/// out. A goto does the same and puts the matching line out too. A note does
/// nothing. When the edits are used up, the lines from the cursor on are put
/// out.
pub open spec fn replay(lines: Seq<Seq<char>>, cursor: int, edits: Seq<Edit>) -> Option<
    Seq<Seq<char>>,
>
    decreases edits.len(),
{
    if edits.len() == 0 {
        Some(lines.skip(cursor))
    } else {
        let rest = edits.drop_first();
        match edits[0] {
            Edit::Insert(line) => preceded_by(seq![line], replay(lines, cursor, rest)),
            Edit::Delete(anchor) => {
                let at = seek(lines, cursor, anchor);
                if at >= lines.len() {
                    None
                } else {
                    preceded_by(lines.subrange(cursor, at), replay(lines, at + 1, rest))
                }
            },
            Edit::Equal(anchor) => {
                let at = seek(lines, cursor, anchor);
                if at >= lines.len() {
                    None
                } else {
                    preceded_by(lines.subrange(cursor, at + 1), replay(lines, at + 1, rest))
                }
            },
            Edit::Note(_) => replay(lines, cursor, rest),
        }
    }
}

/// Where the cursor stands behind one edit: behind the line that a delete or
/// goto found, which is behind the last line by one where it found none, and
/// where it stood before for an insert or a note.
pub open spec fn cursor_behind(lines: Seq<Seq<char>>, cursor: int, edit: Edit) -> int {
    match edit {
        Edit::Delete(anchor) => seek(lines, cursor, anchor) + 1,
        Edit::Equal(anchor) => seek(lines, cursor, anchor) + 1,
        _ => cursor,
    }
}

/// Where the cursor stands when `edits` have been replayed against `lines`
/// from `cursor`: behind the line that the last delete or goto found, or
/// `None` where an anchor is not found.
pub open spec fn cursor_after(lines: Seq<Seq<char>>, cursor: int, edits: Seq<Edit>) -> Option<int>
    decreases edits.len(),
{
    if edits.len() == 0 {
        Some(cursor)
    } else {
        let rest = edits.drop_first();
        match edits[0] {
            Edit::Delete(anchor) => {
                let at = seek(lines, cursor, anchor);
                if at >= lines.len() {
                    None
                } else {
                    cursor_after(lines, at + 1, rest)
                }
            },
            Edit::Equal(anchor) => {
                let at = seek(lines, cursor, anchor);
                if at >= lines.len() {
                    None
                } else {
                    cursor_after(lines, at + 1, rest)
                }
            },
            _ => cursor_after(lines, cursor, rest),
        }
    }
}

/// The lines of the original that a script walks over: the payloads of its
/// deletes and gotos, in order.
pub open spec fn original_side(edits: Seq<Edit>) -> Seq<Seq<char>>
    decreases edits.len(),
{
    if edits.len() == 0 {
        Seq::empty()
    } else {
        match edits[0] {
            Edit::Delete(line) => seq![line] + original_side(edits.drop_first()),
            Edit::Equal(line) => seq![line] + original_side(edits.drop_first()),
            _ => original_side(edits.drop_first()),
        }
    }
}

/// The lines that a script leaves behind: the payloads of its gotos and
/// inserts, in order.
pub open spec fn target_side(edits: Seq<Edit>) -> Seq<Seq<char>>
    decreases edits.len(),
{
    if edits.len() == 0 {
        Seq::empty()
    } else {
        match edits[0] {
            Edit::Insert(line) => seq![line] + target_side(edits.drop_first()),
            Edit::Equal(line) => seq![line] + target_side(edits.drop_first()),
            _ => target_side(edits.drop_first()),
        }
    }
}

/// Where `seek` lands: at or after `from`, on a line equal to the anchor
/// unless it ran off the end, and past no line equal to the anchor.
pub proof fn lemma_seek(lines: Seq<Seq<char>>, from: int, anchor: Seq<char>)
    requires
        0 <= from <= lines.len(),
    ensures
        from <= seek(lines, from, anchor) <= lines.len(),
        seek(lines, from, anchor) < lines.len() ==> lines[seek(lines, from, anchor)] == anchor,
        forall|j: int| from <= j < seek(lines, from, anchor) ==> lines[j] != anchor,
    decreases lines.len() - from,
{
    if from < lines.len() && lines[from] != anchor {
        lemma_seek(lines, from + 1, anchor);
    }
}

/// Notes change nothing: a transcript replays as its changeset does.
pub proof fn lemma_replay_skips_notes(lines: Seq<Seq<char>>, cursor: int, edits: Seq<Edit>)
    ensures
        replay(lines, cursor, edits) == replay(lines, cursor, changeset_of(edits)),
    decreases edits.len(),
{
    let keep = |e: Edit| !(e is Note);
    if edits.len() == 0 {
        reveal(Seq::filter);
    } else {
        let rest = edits.drop_first();
        let first = seq![edits[0]];
        assert(edits == first + rest);
        Seq::filter_distributes_over_add(first, rest, keep);
        assert(first.filter(keep) == if edits[0] is Note {
            Seq::<Edit>::empty()
        } else {
            first
        }) by {
            reveal_with_fuel(Seq::filter, 2);
        }
        if !(edits[0] is Note) {
            assert(changeset_of(edits).drop_first() == changeset_of(rest));
        }
        lemma_replay_skips_notes(lines, cursor_behind(lines, cursor, edits[0]), rest);
    }
}

/// The cursor never moves back, and never past the end of the lines.
pub proof fn lemma_cursor_moves_forward(lines: Seq<Seq<char>>, cursor: int, edits: Seq<Edit>)
    requires
        0 <= cursor <= lines.len(),
    ensures
        cursor_after(lines, cursor, edits) matches Some(reached) ==> cursor <= reached
            <= lines.len(),
        cursor_after(lines, cursor, edits) is Some <==> replay(lines, cursor, edits) is Some,
    decreases edits.len(),
{
    if edits.len() > 0 {
        lemma_seek(lines, cursor, payload_of(edits[0]));
        let next = cursor_behind(lines, cursor, edits[0]);
        if next <= lines.len() {
            lemma_cursor_moves_forward(lines, next, edits.drop_first());
        }
    }
}

/// A delete or goto whose payload equals no line from the cursor on, as the
/// cursor stands when its turn comes, fails the replay.
pub proof fn lemma_anchor_exhaustion(lines: Seq<Seq<char>>, cursor: int, edits: Seq<Edit>, i: int)
    requires
        0 <= cursor <= lines.len(),
        0 <= i < edits.len(),
        edits[i] is Delete || edits[i] is Equal,
        cursor_after(lines, cursor, edits.take(i)) matches Some(reached) ==> forall|j: int|
            reached <= j < lines.len() ==> lines[j] != payload_of(edits[i]),
    ensures
        replay(lines, cursor, edits) is None,
    decreases i,
{
    lemma_seek(lines, cursor, payload_of(edits[0]));
    if i > 0 {
        let rest = edits.drop_first();
        let next = cursor_behind(lines, cursor, edits[0]);
        assert(edits.take(i).drop_first() == rest.take(i - 1));
        if next <= lines.len() {
            lemma_anchor_exhaustion(lines, next, rest, i - 1);
        }
    }
}

/// A replay fails only where an anchor is exhausted: it hands out the index
/// of a delete or goto whose payload equals no line from the cursor on, as
/// the cursor stands when its turn comes.
pub proof fn lemma_failed_replay(lines: Seq<Seq<char>>, cursor: int, edits: Seq<Edit>) -> (i: int)
    requires
        0 <= cursor <= lines.len(),
        replay(lines, cursor, edits) is None,
    ensures
        0 <= i < edits.len(),
        edits[i] is Delete || edits[i] is Equal,
        cursor_after(lines, cursor, edits.take(i)) matches Some(reached) && forall|j: int|
            reached <= j < lines.len() ==> lines[j] != payload_of(edits[i]),
    decreases edits.len(),
{
    lemma_seek(lines, cursor, payload_of(edits[0]));
    let next = cursor_behind(lines, cursor, edits[0]);
    if next > lines.len() {
        assert(edits.take(0).len() == 0);
        0
    } else {
        let rest = edits.drop_first();
        let i = lemma_failed_replay(lines, next, rest);
        assert(edits.take(i + 1).drop_first() == rest.take(i));
        i + 1
    }
}

/// Replaying a script whose deletes and gotos name exactly the lines from the
/// cursor on finds every anchor at once, and leaves the lines that its gotos
/// and inserts name.
pub proof fn lemma_replay_of_script(lines: Seq<Seq<char>>, cursor: int, edits: Seq<Edit>)
    requires
        0 <= cursor <= lines.len(),
        original_side(edits) == lines.skip(cursor),
    ensures
        replay(lines, cursor, edits) == Some(target_side(edits)),
    decreases edits.len(),
{
    if edits.len() == 0 {
        assert(lines.skip(cursor) =~= target_side(edits));
    } else if edits[0] is Delete || edits[0] is Equal {
        let named = original_side(edits);
        assert(named[0] == payload_of(edits[0]));
        assert(named.skip(1) =~= original_side(edits.drop_first()));
        assert(lines.skip(cursor)[0] == lines[cursor]);
        assert(lines.skip(cursor).skip(1) =~= lines.skip(cursor + 1));
        lemma_replay_of_script(lines, cursor + 1, edits.drop_first());
        assert(lines.subrange(cursor, cursor + 1) =~= seq![lines[cursor]]);
        assert(lines.subrange(cursor, cursor) =~= Seq::<Seq<char>>::empty());
    } else {
        lemma_replay_of_script(lines, cursor, edits.drop_first());
    }
}

/// Puts a copy of `line` at the end of `out`.
fn copy_line(out: &mut Vec<String>, line: &String)
    ensures
        text_of(final(out)@) == text_of(old(out)@).push(line@),
{
    out.push(line.clone());
}

/// Moves from `cursor` to the first line equal to `anchor`, copying the lines
/// passed over to `out`, and says where it stopped: on the matching line, or
/// behind the last line where none matches.
fn copy_until(lines: &Vec<String>, cursor: usize, anchor: &String, out: &mut Vec<String>) -> (at:
    usize)
    requires
        cursor <= lines.len(),
    ensures
        at == seek(text_of(lines@), cursor as int, anchor@),
        cursor <= at <= lines.len(),
        text_of(final(out)@) == text_of(old(out)@) + text_of(lines@).subrange(
            cursor as int,
            at as int,
        ),
{
    let ghost original = text_of(lines@);
    let mut at: usize = cursor;
    while at < lines.len() && !(lines[at] == *anchor)
        invariant
            cursor <= at <= lines.len(),
            original == text_of(lines@),
            seek(original, cursor as int, anchor@) == seek(original, at as int, anchor@),
            text_of(out@) == text_of(old(out)@) + original.subrange(cursor as int, at as int),
        decreases lines.len() - at,
    {
        copy_line(out, &lines[at]);
        at += 1;
    }
    at
}

/// Replays a changeset against the lines of the original. The cursor only
/// moves forward: a line passed over in search of an anchor is kept, and an
/// anchor that is not found before the lines run out fails the replay.
pub fn apply_changeset(lines: &Vec<String>, changeset: &Vec<Operation>) -> (output: Result<
    Vec<String>,
    PatchError,
>)
    ensures
        match output {
            Ok(out) => replay(text_of(lines@), 0, edits_of(changeset@)) == Some(text_of(out@)),
            Err(e) => e == PatchError::UnmatchedAnchor && replay(
                text_of(lines@),
                0,
                edits_of(changeset@),
            ) is None,
        },
{
    let ghost original = text_of(lines@);
    let ghost edits = edits_of(changeset@);
    let mut out: Vec<String> = Vec::new();
    let mut cursor: usize = 0;
    let mut k: usize = 0;
    proof {
        assert(edits.skip(0) == edits);
    }
    while k < changeset.len()
        invariant
            k <= changeset.len(),
            cursor <= lines.len(),
            original == text_of(lines@),
            edits == edits_of(changeset@),
            replay(original, 0, edits) == preceded_by(
                text_of(out@),
                replay(original, cursor as int, edits.skip(k as int)),
            ),
        decreases changeset.len() - k,
    {
        proof {
            assert(edits.skip(k as int).drop_first() == edits.skip(k + 1));
        }
        match &changeset[k] {
            Operation::Insert(line) => {
                copy_line(&mut out, line);
            },
            Operation::Delete(anchor) => {
                let at = copy_until(lines, cursor, anchor, &mut out);
                if at >= lines.len() {
                    return Err(PatchError::UnmatchedAnchor);
                }
                cursor = at + 1;
            },
            Operation::Equal(anchor) => {
                let at = copy_until(lines, cursor, anchor, &mut out);
                if at >= lines.len() {
                    return Err(PatchError::UnmatchedAnchor);
                }
                copy_line(&mut out, &lines[at]);
                cursor = at + 1;
            },
            Operation::Note(_) => {},
        }
        k += 1;
    }
    let ghost out_before = text_of(out@);
    let start = cursor;
    while cursor < lines.len()
        invariant
            start <= cursor <= lines.len(),
            original == text_of(lines@),
            text_of(out@) == out_before + original.subrange(start as int, cursor as int),
        decreases lines.len() - cursor,
    {
        copy_line(&mut out, &lines[cursor]);
        cursor += 1;
    }
    Ok(out)
}

} // verus!
