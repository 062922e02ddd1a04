use refac::api::Message;
use refac::prompt::{chat_prefix, samples, SYSTEM_PROMPT, TOAST_RESULT, TOAST_SELECTED, TOAST_TRANSFORM};

#[test]
fn chat_prefix_starts_with_the_system_prompt() {
    let prefix = chat_prefix();
    assert_eq!(prefix[0], Message::system(SYSTEM_PROMPT));
    assert!(SYSTEM_PROMPT.starts_with("You are a sassy AI refactoring tool"));
    assert!(SYSTEM_PROMPT.ends_with("act in the user's best interest.\n"));
}

#[test]
fn chat_prefix_shows_each_sample_as_three_messages() {
    let prefix = chat_prefix();
    let library = samples();
    assert_eq!(library.len(), 13);
    assert_eq!(prefix.len(), 1 + 3 * library.len());
    for (i, sample) in library.iter().enumerate() {
        assert_eq!(prefix[1 + 3 * i], Message::user(sample.selected));
        assert_eq!(prefix[2 + 3 * i], Message::user(sample.transform));
        assert_eq!(prefix[3 + 3 * i], Message::assistant(sample.result));
    }
}

#[test]
fn samples_keep_their_order_and_text() {
    let library = samples();
    assert_eq!(library[0].transform, "Any advice?");
    assert_eq!(library[2].selected, "Me like toast.");
    assert_eq!(library[2].transform, "Correct grammar.");
    assert_eq!(library[2].result, "I like toast.");
    assert_eq!(library[2].selected, TOAST_SELECTED);
    assert_eq!(library[2].transform, TOAST_TRANSFORM);
    assert_eq!(library[2].result, TOAST_RESULT);
    assert_eq!(library[7].selected, "a");
    assert_eq!(library[7].result, "A");
    assert_eq!(library[9].selected, "\nall is well\n");
    assert_eq!(library[11].selected, "");
    assert_eq!(library[11].result, "find . -type f");
    assert_eq!(library[12].result, "Alabama\nAlaska\nArizona\nArkansas");
}
