use refac::common::{diff, get_changeset, undiff, diff_inner, pick_shorter, Algorithm};
use refac::replay::apply_changeset;
use refac::text::{join_newline, read_transcript_lines, split_newline};
use refac::transcript::{
    parse_operation, render_operation, render_transcript, Operation, PatchError,
};

fn samples() -> Vec<&'static str> {
    vec![
        "hello",
        "hello\nworld",
        "hello\nworld\n",
        r#"
fn main() {
    println!("hello world");
}
"#,
        "
lorem ipsum dolor sit amet
consectetur adipiscing elit
sed do eiusmod tempor incididunt
ut labore et dolore magna aliqua
",
        "
lorem ipsum dolor sit amet
consectetur adipiscing elit
sed do eiusmod tempor incididunt
ut labore et dolore magna
",
        "
lorem ipsum dolor sit amet
sed do eiusmod tempor incididunt
ut labore et dolore magna aliqua
",
        "
lorem ipsum dolor sit amet
sed do eiusmod tempor incididunt
ut labore et dolore magna aliqua
",
        "
lorem ipsum dolor sit amet
consectetur adipiscing elit
sed do eiusmod tempor incididunt
sed do eiusmod tempor incididunt
ut labore et dolore magna aliqua
",
        "
lorem ipsum dolor sit amet
consectetur adipiscing elit
sed do eiusmod tempor incididunt
ut labore et dolore magna aliqua",
        "
    Blocking waiting for file lock on package cache
    Blocking waiting for file lock on build directory
   Compiling refac v0.1.2 (/home/bo-bert/refac)
    Finished test [unoptimized + debuginfo] target(s) in 1.63s
     Running unittests src/main.rs (target/debug/deps/refac-e4987e4890982537)

running 3 tests
test prompt::tests::test_sample_result ... ok
test prompt::tests::test_chat_prefix ... ok
test common::tests::diff_undiff ... ok

test result: ok. 3 passed; 0 failed; 0 ignored; 0 measured; 0 filtered out; finished in 0.00s
",
        "
    Blocking waiting for file lock on package cache
    Blocking waiting for file lock on build directory
   Compiling refac v0.1.4 (/home/bobert/refac)
    Finished test [unoptimized + debuginfo] target(s) in 1.63s

running 3 tests
test prompt::tests::test_sample_result ... ok
test prompt::tests::test_chat_prefix ... ok
=====sneaky line=====
test common::tests::diff_undiff ... ok

test result: ok. 3 passed; 0 failed; 0 ignored; 0 measured; 0 filtered out; finished in 0.00s
",
        "",
        "\n",
    ]
}

#[test]
fn diff_undiff() {
    for from in samples() {
        for to in samples() {
            println!("----------------------------------------");
            let diff = diff(from, to);
            println!("from:\n{}\n", from);
            println!("to:\n{}\n", to);
            println!("diff:\n{}\n", diff);
            let undiff = undiff(from, &diff).unwrap();
            println!("undiff:\n{}\n", undiff);
            assert_eq!(undiff, *to);
        }
    }
}

#[test]
fn diff_undiff_with_each_algorithm() {
    for algorithm in [Algorithm::Myers, Algorithm::Patience] {
        for from in samples() {
            for to in samples() {
                let transcript = diff_inner(from, to, algorithm);
                assert_eq!(undiff(from, &transcript), Ok(to.to_string()));
            }
        }
    }
}

#[test]
fn undiff_corrects_grammar() {
    assert_eq!(
        undiff("Me like toast.", "delete Me like toast.\ninsert I like toast."),
        Ok("I like toast.".to_string())
    );
}

#[test]
fn undiff_capitalizes() {
    assert_eq!(undiff("a", "delete a\ninsert A"), Ok("A".to_string()));
}

#[test]
fn undiff_fills_empty_selection() {
    assert_eq!(
        undiff("", "note guessing\ndelete \ninsert find . -type f"),
        Ok("find . -type f".to_string())
    );
}

#[test]
fn undiff_inserts_between_gotos() {
    assert_eq!(
        undiff("line1\nline2\nline3", "goto line2\ninsert inserted\ngoto line3"),
        Ok("line1\nline2\ninserted\nline3".to_string())
    );
}

#[test]
fn diff_of_equal_texts_has_only_gotos() {
    let transcript = diff("hello\nworld", "hello\nworld");
    assert_eq!(transcript, "goto hello\ngoto world");
    let changeset = get_changeset(&transcript).unwrap();
    assert_eq!(
        changeset,
        vec![Operation::Equal("hello".to_string()), Operation::Equal("world".to_string())]
    );
}

#[test]
fn diff_writes_deletes_before_inserts() {
    assert_eq!(diff("a", "A"), "delete a\ninsert A");
    assert_eq!(diff("foo\nbar\nbaz", "foo\nBAR\nbaz"), "goto foo\ndelete bar\ninsert BAR\ngoto baz");
}

#[test]
fn diff_of_empty_texts_is_one_goto() {
    assert_eq!(diff("", ""), "goto ");
    assert_eq!(undiff("", "goto "), Ok(String::new()));
}

#[test]
fn diff_keeps_trailing_newline() {
    let transcript = diff("hello\nworld", "hello\nworld\n");
    assert_eq!(undiff("hello\nworld", &transcript), Ok("hello\nworld\n".to_string()));
    let back = diff("hello\nworld\n", "hello\nworld");
    assert_eq!(undiff("hello\nworld\n", &back), Ok("hello\nworld".to_string()));
}

#[test]
fn no_op_diff_returns_the_text() {
    for text in samples() {
        let transcript = diff(text, text);
        assert_eq!(undiff(text, &transcript), Ok(text.to_string()));
    }
}

#[test]
fn empty_transcript_changes_nothing() {
    for text in samples() {
        assert_eq!(undiff(text, ""), Ok(text.to_string()));
    }
}

#[test]
fn unknown_verb_is_invalid_grammar() {
    assert_eq!(undiff("a", "remove a"), Err(PatchError::InvalidGrammar));
    assert_eq!(undiff("a", "delete a\nbogus\ninsert A"), Err(PatchError::InvalidGrammar));
    assert_eq!(get_changeset("insert x\nupdate y"), Err(PatchError::InvalidGrammar));
}

#[test]
fn invalid_line_wins_over_missing_anchor() {
    assert_eq!(undiff("a", "delete missing\nbogus"), Err(PatchError::InvalidGrammar));
}

#[test]
fn bare_blank_line_is_invalid_grammar() {
    assert_eq!(undiff("a", "goto a\n\ninsert b"), Err(PatchError::InvalidGrammar));
    assert_eq!(undiff("a", "\n"), Err(PatchError::InvalidGrammar));
}

#[test]
fn verb_without_space_is_invalid_grammar() {
    assert_eq!(undiff("a", "delete"), Err(PatchError::InvalidGrammar));
    assert_eq!(undiff("a", "goto"), Err(PatchError::InvalidGrammar));
    assert_eq!(undiff("a", " goto a"), Err(PatchError::InvalidGrammar));
    assert_eq!(undiff("a", "Goto a"), Err(PatchError::InvalidGrammar));
}

#[test]
fn missing_delete_anchor_is_unmatched() {
    assert_eq!(undiff("a\nb", "delete c"), Err(PatchError::UnmatchedAnchor));
}

#[test]
fn missing_goto_anchor_is_unmatched() {
    assert_eq!(undiff("a\nb", "goto c"), Err(PatchError::UnmatchedAnchor));
}

#[test]
fn anchor_behind_the_cursor_is_unmatched() {
    assert_eq!(undiff("a\nb", "goto b\ngoto a"), Err(PatchError::UnmatchedAnchor));
    assert_eq!(undiff("a", "delete a\ndelete a"), Err(PatchError::UnmatchedAnchor));
}

#[test]
fn anchor_on_empty_original_matches_the_empty_line_once() {
    assert_eq!(undiff("", "delete "), Ok(String::new()));
    assert_eq!(undiff("", "goto \ngoto "), Err(PatchError::UnmatchedAnchor));
}

#[test]
fn skipped_lines_are_kept() {
    assert_eq!(undiff("a\nb\nc\nd", "delete c"), Ok("a\nb\nd".to_string()));
    assert_eq!(undiff("a\nb\nc\nd", "goto c\ninsert x"), Ok("a\nb\nc\nx\nd".to_string()));
}

#[test]
fn delete_takes_the_first_match_only() {
    assert_eq!(undiff("x\ny\nx", "delete x"), Ok("y\nx".to_string()));
    assert_eq!(undiff("x\ny\nx", "delete x\ndelete x"), Ok("y".to_string()));
}

#[test]
fn insert_does_not_move_the_cursor() {
    assert_eq!(undiff("a\nb", "insert x\ninsert y"), Ok("x\ny\na\nb".to_string()));
    assert_eq!(undiff("a\nb", "insert x\ngoto a\ninsert y"), Ok("x\na\ny\nb".to_string()));
}

#[test]
fn payload_may_be_empty_or_hold_spaces() {
    assert_eq!(undiff("a\n\nb", "goto \ninsert  two  spaces "), Ok("a\n\n two  spaces \nb".to_string()));
    assert_eq!(undiff("a", "insert "), Ok("\na".to_string()));
}

#[test]
fn payload_that_starts_with_a_verb_is_payload() {
    assert_eq!(undiff("goto x", "delete goto x\ninsert note y"), Ok("note y".to_string()));
}

#[test]
fn notes_change_nothing() {
    let plain = "goto line2\ninsert inserted\ngoto line3";
    let with_notes = "note first\ngoto line2\nnote \nnote in between\ninsert inserted\ngoto line3\nnote last";
    let original = "line1\nline2\nline3";
    assert_eq!(undiff(original, with_notes), undiff(original, plain));
    assert_eq!(undiff(original, with_notes), Ok("line1\nline2\ninserted\nline3".to_string()));
    assert_eq!(undiff(original, "note only"), Ok(original.to_string()));
}

#[test]
fn notes_change_no_failure() {
    assert_eq!(undiff("a", "note x\ndelete b"), Err(PatchError::UnmatchedAnchor));
    assert_eq!(undiff("a", "note x\nbogus"), Err(PatchError::InvalidGrammar));
}

#[test]
fn changeset_leaves_notes_out() {
    assert_eq!(
        get_changeset("note a\ndelete b\nnote c\ninsert d\ngoto e"),
        Ok(vec![
            Operation::Delete("b".to_string()),
            Operation::Insert("d".to_string()),
            Operation::Equal("e".to_string()),
        ])
    );
    assert_eq!(get_changeset(""), Ok(vec![]));
}

#[test]
fn transcript_may_end_with_one_newline() {
    assert_eq!(undiff("a", "delete a\ninsert A\n"), Ok("A".to_string()));
    assert_eq!(undiff("a", "delete a\ninsert A\n\n"), Err(PatchError::InvalidGrammar));
}

#[test]
fn carriage_return_before_newline_ends_the_line() {
    assert_eq!(undiff("a", "delete a\r\ninsert A\r\n"), Ok("A".to_string()));
    assert_eq!(
        get_changeset("insert x\r\ninsert y\r"),
        Ok(vec![Operation::Insert("x".to_string()), Operation::Insert("y\r".to_string())])
    );
}

#[test]
fn carriage_return_at_line_end_is_lost_in_the_round_trip() {
    let transcript = diff("x\r\ny", "x\r\ny");
    assert_eq!(transcript, "goto x\r\ngoto y");
    assert_eq!(undiff("x\r\ny", &transcript), Err(PatchError::UnmatchedAnchor));
    let last_line_only = diff("x\r", "x\r");
    assert_eq!(undiff("x\r", &last_line_only), Ok("x\r".to_string()));
}

#[test]
fn parse_operation_reads_each_verb() {
    let line = |s: &str| s.chars().collect::<Vec<char>>();
    assert_eq!(parse_operation(&line("delete a b")), Ok(Operation::Delete("a b".to_string())));
    assert_eq!(parse_operation(&line("insert  x")), Ok(Operation::Insert(" x".to_string())));
    assert_eq!(parse_operation(&line("goto ")), Ok(Operation::Equal(String::new())));
    assert_eq!(parse_operation(&line("note why")), Ok(Operation::Note("why".to_string())));
    assert_eq!(parse_operation(&line("notes")), Err(PatchError::InvalidGrammar));
    assert_eq!(parse_operation(&line("")), Err(PatchError::InvalidGrammar));
}

#[test]
fn render_is_read_back_by_parse() {
    let operations = vec![
        Operation::Delete("d".to_string()),
        Operation::Insert("".to_string()),
        Operation::Equal("g h".to_string()),
        Operation::Note("n".to_string()),
    ];
    for operation in &operations {
        let line: Vec<char> = render_operation(operation).chars().collect();
        assert_eq!(parse_operation(&line), Ok(operation.clone()));
    }
    assert_eq!(render_transcript(&operations), "delete d\ninsert \ngoto g h\nnote n");
    assert_eq!(render_transcript(&vec![]), "");
}

#[test]
fn pick_shorter_prefers_the_first_on_a_tie() {
    assert_eq!(pick_shorter("ab".to_string(), "cd".to_string()), "ab");
    assert_eq!(pick_shorter("abc".to_string(), "cd".to_string()), "cd");
    assert_eq!(pick_shorter("ab".to_string(), "cde".to_string()), "ab");
}

#[test]
fn pick_shorter_counts_characters() {
    assert_eq!(pick_shorter("\u{e9}\u{e9}".to_string(), "abc".to_string()), "\u{e9}\u{e9}");
}

#[test]
fn split_and_join_are_inverse() {
    assert_eq!(split_newline(""), vec![""]);
    assert_eq!(split_newline("\n"), vec!["", ""]);
    assert_eq!(split_newline("a\nb\n"), vec!["a", "b", ""]);
    assert_eq!(split_newline("a\r\nb"), vec!["a\r", "b"]);
    assert_eq!(join_newline(&vec![]), "");
    assert_eq!(join_newline(&vec!["".to_string()]), "");
    assert_eq!(join_newline(&vec!["a".to_string(), "".to_string()]), "a\n");
    for text in samples() {
        assert_eq!(join_newline(&split_newline(text)), text);
    }
}

#[test]
fn apply_changeset_replays_in_order() {
    let lines = vec!["a".to_string(), "b".to_string(), "c".to_string()];
    let changeset = vec![
        Operation::Equal("a".to_string()),
        Operation::Delete("b".to_string()),
        Operation::Insert("B".to_string()),
    ];
    assert_eq!(
        apply_changeset(&lines, &changeset),
        Ok(vec!["a".to_string(), "B".to_string(), "c".to_string()])
    );
    assert_eq!(
        apply_changeset(&lines, &vec![Operation::Delete("z".to_string())]),
        Err(PatchError::UnmatchedAnchor)
    );
    assert_eq!(apply_changeset(&lines, &vec![Operation::Note("z".to_string())]), Ok(lines.clone()));
}

#[test]
fn error_messages() {
    assert_eq!(
        PatchError::InvalidGrammar.message(),
        "invalid diff format, every line should start with delete, insert, goto or note"
    );
    assert_eq!(PatchError::UnmatchedAnchor.message(), "selected text is shorter than the diff");
}

#[test]
fn transcript_lines_are_read_as_std_reads_lines() {
    let texts = vec![
        "",
        "\n",
        "a",
        "a\n",
        "a\nb",
        "a\n\nb\n",
        "a\r\nb\r\n",
        "a\r\r\nb\r",
        "\r",
        "\r\n",
        "\n\n",
        "a\rb\nc",
    ];
    for text in texts {
        let read: Vec<String> =
            read_transcript_lines(text).into_iter().map(|line| line.into_iter().collect()).collect();
        let expected: Vec<String> = text.lines().map(|line| line.to_string()).collect();
        assert_eq!(read, expected, "{:?}", text);
    }
}

#[test]
fn lines_are_split_as_std_splits() {
    for text in samples() {
        let expected: Vec<String> = text.split('\n').map(|line| line.to_string()).collect();
        assert_eq!(split_newline(text), expected);
    }
}

#[test]
fn diff_spells_an_edit_script() {
    for algorithm in [Algorithm::Myers, Algorithm::Patience] {
        for from in samples() {
            for to in samples() {
                let transcript = diff_inner(from, to, algorithm);
                let changeset = get_changeset(&transcript).unwrap();
                let mut walked = Vec::new();
                let mut left = Vec::new();
                for operation in changeset {
                    match operation {
                        Operation::Delete(line) => walked.push(line),
                        Operation::Insert(line) => left.push(line),
                        Operation::Equal(line) => {
                            walked.push(line.clone());
                            left.push(line);
                        }
                        Operation::Note(_) => panic!("the encoder writes no notes"),
                    }
                }
                assert_eq!(walked, split_newline(from));
                assert_eq!(left, split_newline(to));
            }
        }
    }
}

#[test]
fn diff_is_the_shorter_of_the_two_candidates() {
    for from in samples() {
        for to in samples() {
            let myers = diff_inner(from, to, Algorithm::Myers);
            let patience = diff_inner(from, to, Algorithm::Patience);
            let picked = diff(from, to);
            assert_eq!(picked, pick_shorter(myers.clone(), patience.clone()));
            assert!(picked.chars().count() <= myers.chars().count());
            assert!(picked.chars().count() <= patience.chars().count());
            if myers.chars().count() == patience.chars().count() {
                assert_eq!(picked, myers);
            }
        }
    }
}
