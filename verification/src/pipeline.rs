//! What is decided around the two calls of the model gateway: the request
//! that asks for a transformation, what is made of the transcript that comes
//! back, and the one request that asks a second model to read a transcript
//! which could not be applied.
use vstd::prelude::*;
use vstd::string::StringExecFns;

use crate::api::{conversation_of, ChatCompletionResponse, Message, MessageView};
use crate::common::{diff, encoded, patched, undiff};
use crate::prompt::{chat_prefix, prefix_conversation, sample_library, samples, Sample};

verus! {

/// The instruction that opens the conversation with the second model.
pub const FALLBACK_SYSTEM_PROMPT: &'static str = "You apply line-based diffs to text.

The user sends two messages: first the original text, then a diff.
The diff is a list of lines. Each line starts with one of four words:
- `insert <line>`: the line is added at the current position.
- `delete <line>`: the next line of the original that equals <line> is removed.
- `goto <line>`: the original is kept up to and including the next line that equals <line>.
- `note <text>`: a remark of the diff's author. It changes nothing.

Lines of the original that the diff does not name are kept as they are.

The diff may be malformed, and it may not match the original exactly.
Do what its author most likely meant.

Reply with the full resulting text and nothing else.
";

/// How the model is asked to sample.
#[derive(Debug, Clone, Copy, PartialEq, Eq, Structural)]
pub enum Sampling {
    /// As the gateway does it where nothing is said.
    Default,
    /// With the temperature at zero, so that the same request gets the same
    /// answer.
    Deterministic,
}

/// What is asked of the model gateway: the model, the conversation so far,
/// and how to sample.
#[derive(Debug)]
pub struct CompletionRequest {
    pub model: String,
    pub messages: Vec<Message>,
    pub sampling: Sampling,
}

/// The record of a transcript that could not be applied.
#[derive(Debug)]
pub struct UndiffFailure {
    pub selected: String,
    pub diff: String,
    pub transform: String,
    pub err: String,
}

/// Why no text came back from the model gateway.
#[derive(Debug)]
pub enum CompletionFailure<E> {
    /// The gateway failed; its error is handed on as it came.
    Gateway(E),
    /// The model returned no completion.
    NoCandidates,
}

/// What is to be done once the transcript is there.
#[derive(Debug)]
pub enum Next {
    /// The transcript applied; this is the transformed text.
    Done(String),
    /// The transcript did not apply: the failure is to be logged and the
    /// second model asked, once.
    AskFallback { failure: UndiffFailure, request: CompletionRequest },
}

/// The conversation that asks for `transform` to be applied to `selected`:
/// the common start, then the selected text and the request.
pub open spec fn primary_conversation(selected: Seq<char>, transform: Seq<char>) -> Seq<
    MessageView,
> {
    prefix_conversation() + seq![
        MessageView::User { content: selected },
        MessageView::User { content: transform },
    ]
}

/// The three messages that show the second model one worked example: the
/// original text, the transcript that turns it into the result, without
/// notes, and the result.
pub open spec fn worked_patch(sample: Sample) -> Seq<MessageView> {
    seq![
        MessageView::User { content: sample.selected@ },
        MessageView::User { content: encoded(sample.selected@, sample.result@) },
        MessageView::Assistant { content: Some(sample.result@), function_call: None },
    ]
}

/// The messages that show `samples` to the second model, one worked example
/// after the other.
pub open spec fn worked_patches(samples: Seq<Sample>) -> Seq<MessageView>
    decreases samples.len(),
{
    if samples.len() == 0 {
        Seq::empty()
    } else {
        worked_patches(samples.drop_last()) + worked_patch(samples.last())
    }
}

/// The conversation that asks the second model to apply `transcript` to
/// `original`: the instruction, the worked examples, then the original text
/// and the transcript as it came.
pub open spec fn fallback_conversation(original: Seq<char>, transcript: Seq<char>) -> Seq<
    MessageView,
> {
    seq![MessageView::System { content: FALLBACK_SYSTEM_PROMPT@ }] + worked_patches(
        sample_library(),
    ) + seq![MessageView::User { content: original }, MessageView::User { content: transcript }]
}

/// The request that asks the model `model` for `transform` to be applied to
/// `selected`.
pub fn primary_request(selected: &str, transform: &str, model: &str) -> (request:
    CompletionRequest)
    ensures
        request.model@ == model@,
        conversation_of(request.messages@) == primary_conversation(selected@, transform@),
        request.sampling == Sampling::Default,
{
    let mut messages = chat_prefix();
    messages.push(Message::user(selected));
    messages.push(Message::user(transform));
    CompletionRequest { model: String::from_str(model), messages, sampling: Sampling::Default }
}

/// The conversation that asks the second model to apply `raw_transcript` to
/// `original`.
pub fn fallback_messages(original: &str, raw_transcript: &str) -> (messages: Vec<Message>)
    ensures
        conversation_of(messages@) == fallback_conversation(original@, raw_transcript@),
{
    let mut messages: Vec<Message> = Vec::new();
    messages.push(Message::system(FALLBACK_SYSTEM_PROMPT));
    let ghost start = conversation_of(messages@);
    let library = samples();
    let mut i: usize = 0;
    while i < library.len()
        invariant
            i <= library.len(),
            conversation_of(messages@) == start + worked_patches(library@.take(i as int)),
        decreases library.len() - i,
    {
        let ghost shown = conversation_of(messages@);
        let sample = &library[i];
        let transcript = diff(sample.selected, sample.result);
        messages.push(Message::user(sample.selected));
        messages.push(Message::user(transcript.as_str()));
        messages.push(Message::assistant(sample.result));
        proof {
            assert(library@.take(i + 1).drop_last() =~= library@.take(i as int));
            assert(start + (worked_patches(library@.take(i as int)) + worked_patch(
                library[i as int],
            )) =~= shown + worked_patch(library[i as int]));
        }
        i += 1;
    }
    let ghost shown = conversation_of(messages@);
    proof {
        assert(library@.take(library.len() as int) =~= library@);
    }
    messages.push(Message::user(original));
    messages.push(Message::user(raw_transcript));
    proof {
        assert(conversation_of(messages@) =~= shown + seq![
            MessageView::User { content: original@ },
            MessageView::User { content: raw_transcript@ },
        ]);
    }
    messages
}

/// The request that asks the second model, `model_id`, to apply
/// `raw_transcript` to `original`, sampling deterministically.
pub fn fallback_request(original: &str, raw_transcript: &str, model_id: &str) -> (request:
    CompletionRequest)
    ensures
        request.model@ == model_id@,
        conversation_of(request.messages@) == fallback_conversation(original@, raw_transcript@),
        request.sampling == Sampling::Deterministic,
{
    CompletionRequest {
        model: String::from_str(model_id),
        messages: fallback_messages(original, raw_transcript),
        sampling: Sampling::Deterministic,
    }
}

/// Decides what follows the transcript that the model wrote for turning
/// `selected` into what `transform` asks for. Where the transcript applies,
/// the patched text is the result and the second model is not asked. Where
/// it does not, the failure is recorded with its inputs, and the second
/// model, `fallback_model`, is to be asked to read the transcript as it came.
pub fn after_transcript(
    selected: &str,
    transform: &str,
    transcript: &str,
    fallback_model: &str,
) -> (next: Next)
    ensures
        match patched(selected@, transcript@) {
            Ok(text) => next matches Next::Done(result) && result@ == text,
            Err(error) => next matches Next::AskFallback { failure, request } && {
                &&& failure.selected@ == selected@
                &&& failure.diff@ == transcript@
                &&& failure.transform@ == transform@
                &&& failure.err@ == error.message_text()
                &&& request.model@ == fallback_model@
                &&& conversation_of(request.messages@) == fallback_conversation(
                    selected@,
                    transcript@,
                )
                &&& request.sampling == Sampling::Deterministic
            },
        },
{
    match undiff(selected, transcript) {
        Ok(text) => Next::Done(text),
        Err(error) => Next::AskFallback {
            failure: UndiffFailure {
                selected: String::from_str(selected),
                diff: String::from_str(transcript),
                transform: String::from_str(transform),
                err: error.message(),
            },
            request: fallback_request(selected, transcript, fallback_model),
        },
    }
}

/// The text of the first completion of a response, or `None` where the
/// response holds no completion or its first one holds no text of the
/// assistant.
pub open spec fn first_text(response: ChatCompletionResponse) -> Option<Seq<char>> {
    if response.choices@.len() == 0 {
        None
    } else {
        match response.choices@[0].message@ {
            MessageView::Assistant { content: Some(text), function_call: None } => Some(text),
            _ => None,
        }
    }
}

/// Takes the text out of what the gateway answered: the text of the first
/// completion, as it came. An error of the gateway is handed on unchanged,
/// and a response without a completion that holds text is `NoCandidates`.
pub fn first_completion<E>(outcome: Result<ChatCompletionResponse, E>) -> (result: Result<
    String,
    CompletionFailure<E>,
>)
    ensures
        match outcome {
            Ok(response) => match first_text(response) {
                Some(text) => result matches Ok(held) && held@ == text,
                None => result matches Err(CompletionFailure::NoCandidates),
            },
            Err(error) => result matches Err(CompletionFailure::Gateway(handed)) && handed
                == error,
        },
{
    match outcome {
        Err(error) => Err(CompletionFailure::Gateway(error)),
        Ok(response) => {
            let mut choices = response.choices;
            if choices.len() == 0 {
                return Err(CompletionFailure::NoCandidates);
            }
            let first = choices.swap_remove(0);
            match first.message.try_into_assistant_content() {
                Some(text) => Ok(text),
                None => Err(CompletionFailure::NoCandidates),
            }
        },
    }
}

} // verus!
