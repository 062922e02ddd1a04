use refac::api::{ChatChoice, ChatCompletionResponse, Message, Usage};
use refac::common::diff;
use refac::pipeline::{
    after_transcript, fallback_messages, fallback_request, first_completion, primary_request,
    CompletionFailure, Next, Sampling, FALLBACK_SYSTEM_PROMPT,
};
use refac::prompt::{chat_prefix, samples};

fn response(messages: Vec<Message>) -> ChatCompletionResponse {
    let mut choices = Vec::new();
    for (i, message) in messages.into_iter().enumerate() {
        choices.push(ChatChoice { index: i as u32, message, finish_reason: "stop".to_string() });
    }
    ChatCompletionResponse {
        id: "id".to_string(),
        object: "chat.completion".to_string(),
        created: 0,
        choices,
        usage: Usage { prompt_tokens: 0, completion_tokens: Some(0), total_tokens: 0 },
    }
}

#[test]
fn primary_request_ends_with_selection_and_request() {
    let request = primary_request("let x = 1;", "rename x to y", "o1");
    assert_eq!(request.model, "o1");
    assert_eq!(request.sampling, Sampling::Default);
    let prefix = chat_prefix();
    assert_eq!(request.messages.len(), prefix.len() + 2);
    assert_eq!(request.messages[..prefix.len()], prefix[..]);
    assert_eq!(request.messages[prefix.len()], Message::user("let x = 1;"));
    assert_eq!(request.messages[prefix.len() + 1], Message::user("rename x to y"));
}

#[test]
fn applicable_transcript_is_done_without_fallback() {
    let next = after_transcript("a", "capitalize", "note easy\ndelete a\ninsert A", "small");
    match next {
        Next::Done(text) => assert_eq!(text, "A"),
        Next::AskFallback { .. } => panic!("the transcript applies"),
    }
}

#[test]
fn invalid_transcript_asks_the_second_model() {
    let next = after_transcript("a", "capitalize", "replace a with A", "small");
    match next {
        Next::Done(_) => panic!("the transcript is invalid"),
        Next::AskFallback { failure, request } => {
            assert_eq!(failure.selected, "a");
            assert_eq!(failure.diff, "replace a with A");
            assert_eq!(failure.transform, "capitalize");
            assert_eq!(
                failure.err,
                "invalid diff format, every line should start with delete, insert, goto or note"
            );
            assert_eq!(request.model, "small");
            assert_eq!(request.sampling, Sampling::Deterministic);
            assert_eq!(request.messages, fallback_messages("a", "replace a with A"));
        },
    }
}

#[test]
fn unmatched_anchor_asks_the_second_model() {
    let next = after_transcript("a", "capitalize", "delete b\ninsert A", "small");
    match next {
        Next::Done(_) => panic!("the anchor is missing"),
        Next::AskFallback { failure, request } => {
            assert_eq!(failure.err, "selected text is shorter than the diff");
            assert_eq!(failure.diff, "delete b\ninsert A");
            assert_eq!(request.messages, fallback_messages("a", "delete b\ninsert A"));
        },
    }
}

#[test]
fn fallback_conversation_shows_worked_patches_then_the_pair() {
    let messages = fallback_messages("orig\ninal", "goto orig\nbogus");
    let library = samples();
    assert_eq!(messages.len(), 1 + 3 * library.len() + 2);
    assert_eq!(messages[0], Message::system(FALLBACK_SYSTEM_PROMPT));
    for (i, sample) in library.iter().enumerate() {
        assert_eq!(messages[1 + 3 * i], Message::user(sample.selected));
        assert_eq!(messages[2 + 3 * i], Message::user(&diff(sample.selected, sample.result)));
        assert_eq!(messages[3 + 3 * i], Message::assistant(sample.result));
    }
    assert_eq!(messages[messages.len() - 2], Message::user("orig\ninal"));
    assert_eq!(messages[messages.len() - 1], Message::user("goto orig\nbogus"));
    assert_eq!(messages[8], Message::user("delete Me like toast.\ninsert I like toast."));
}

#[test]
fn fallback_request_is_deterministic() {
    let request = fallback_request("a", "b", "mini");
    assert_eq!(request.model, "mini");
    assert_eq!(request.sampling, Sampling::Deterministic);
    assert_eq!(request.messages, fallback_messages("a", "b"));
}

#[test]
fn first_completion_is_the_first_text_verbatim() {
    let outcome: Result<ChatCompletionResponse, String> =
        Ok(response(vec![Message::assistant(" one\n"), Message::assistant("two")]));
    match first_completion(outcome) {
        Ok(text) => assert_eq!(text, " one\n"),
        Err(_) => panic!("there is a completion"),
    }
}

#[test]
fn no_choice_is_no_candidate() {
    let outcome: Result<ChatCompletionResponse, String> = Ok(response(vec![]));
    assert!(matches!(first_completion(outcome), Err(CompletionFailure::NoCandidates)));
}

#[test]
fn first_choice_without_text_is_no_candidate() {
    let outcome: Result<ChatCompletionResponse, String> =
        Ok(response(vec![Message::assistant_calls("f", "{}"), Message::assistant("two")]));
    assert!(matches!(first_completion(outcome), Err(CompletionFailure::NoCandidates)));
}

#[test]
fn gateway_error_is_handed_on() {
    let outcome: Result<ChatCompletionResponse, String> = Err("timeout".to_string());
    match first_completion(outcome) {
        Err(CompletionFailure::Gateway(error)) => assert_eq!(error, "timeout"),
        _ => panic!("the gateway failed"),
    }
}
