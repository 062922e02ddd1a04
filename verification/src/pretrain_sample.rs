//! Samples for fine-tuning, and the prompts made of them.
use vstd::prelude::*;
use vstd::string::StringExecFns;

verus! {

/// Whether the result of a sample is known to be right.
#[derive(Debug, Clone, Copy, PartialEq, Eq, Structural)]
pub enum Correctness {
    Correct,
    Incorrect,
    Unknown,
}

impl Correctness {
    /// The verdict of a sample that says nothing else.
    pub fn correct() -> (verdict: Correctness)
        ensures
            verdict == Correctness::Correct,
    {
        Correctness::Correct
    }

    /// Tells whether the verdict is `Correct`.
    pub fn is_correct(&self) -> (yes: bool)
        ensures
            yes == (*self == Correctness::Correct),
    {
        matches!(self, Correctness::Correct)
    }
}

/// One sample for fine-tuning: a selected text, the transformation asked
/// for, the text that came out, and whether that text is right.
#[derive(Debug)]
pub struct Sample {
    selected: String,
    transform: String,
    pub result: String,
    correct: Correctness,
}

/// What a sample holds, as the value that contracts speak of.
pub struct SampleView {
    pub selected: Seq<char>,
    pub transform: Seq<char>,
    pub result: Seq<char>,
    pub correct: Correctness,
}

impl View for Sample {
    type V = SampleView;

    closed spec fn view(&self) -> SampleView {
        SampleView {
            selected: self.selected@,
            transform: self.transform@,
            result: self.result@,
            correct: self.correct,
        }
    }
}

/// The text of the JSON object with the two members given, each value a
/// string, as `serde_json` writes it.
pub uninterp spec fn json_object_text(
    first_key: Seq<char>,
    first: Seq<char>,
    second_key: Seq<char>,
    second: Seq<char>,
) -> Seq<char>;

/// Fills a `serde_json::Map` with two members whose values are strings, by
/// `serde_json::Map::insert`, and writes it with `serde_json::to_string`.
///
/// Not proved: that the text depends on the two keys and the two values
/// alone. Writing strings into memory cannot fail, so the result of
/// `to_string` is unwrapped.
#[verifier::external_body]
fn json_object(first_key: &str, first: &str, second_key: &str, second: &str) -> (text: String)
    ensures
        text@ == json_object_text(first_key@, first@, second_key@, second@),
{
    let mut object = serde_json::Map::new();
    object.insert(first_key.to_string(), serde_json::Value::String(first.to_string()));
    object.insert(second_key.to_string(), serde_json::Value::String(second.to_string()));
    serde_json::to_string(&serde_json::Value::Object(object)).unwrap()
}

/// The prompt for a selected text and a transformation: the two as a JSON
/// object, then a line that asks for the improved text.
pub open spec fn prompt_text(selected: Seq<char>, transform: Seq<char>) -> Seq<char> {
    prompt_around(
        json_object_text(
            "original_text"@,
            selected,
            "transformation_instructions"@,
            transform,
        ),
    )
}

/// The prompt around the JSON text of a request: the text, a newline, and
/// the words that ask for the improved text.
pub open spec fn prompt_around(request: Seq<char>) -> Seq<char> {
    request + "\nimproved_text: "@
}

/// Puts the words that ask for the improved text behind the JSON text of a
/// request.
pub fn prompt_from_json(request: String) -> (prompt: String)
    ensures
        prompt@ == prompt_around(request@),
{
    request.concat("\nimproved_text: ")
}

impl Sample {
    /// A sample with the given parts.
    pub fn new(selected: &str, transform: &str, result: &str, correct: Correctness) -> (sample:
        Sample)
        ensures
            sample@ == (SampleView {
                selected: selected@,
                transform: transform@,
                result: result@,
                correct,
            }),
    {
        Sample {
            selected: String::from_str(selected),
            transform: String::from_str(transform),
            result: String::from_str(result),
            correct,
        }
    }

    /// The selected text.
    pub fn selected(&self) -> (selected: &str)
        ensures
            selected@ == self@.selected,
    {
        self.selected.as_str()
    }

    /// The transformation asked for.
    pub fn transform(&self) -> (transform: &str)
        ensures
            transform@ == self@.transform,
    {
        self.transform.as_str()
    }

    /// Whether the result is known to be right.
    pub fn correctness(&self) -> (correct: Correctness)
        ensures
            correct == self@.correct,
    {
        self.correct
    }

    /// The prompt that asks for `transform` to be applied to `selected`.
    pub fn prompt_for(selected: &str, transform: &str) -> (prompt: String)
        ensures
            prompt@ == prompt_text(selected@, transform@),
    {
        Sample::new(selected, transform, "", Correctness::correct()).prompt()
    }

    /// The prompt of this sample.
    pub fn prompt(&self) -> (prompt: String)
        ensures
            prompt@ == prompt_text(self@.selected, self@.transform),
    {
        let request = json_object(
            "original_text",
            self.selected.as_str(),
            "transformation_instructions",
            self.transform.as_str(),
        );
        prompt_from_json(request)
    }

    /// The completion of this sample: its result.
    pub fn completion(&self) -> (completion: &str)
        ensures
            completion@ == self@.result,
    {
        self.result.as_str()
    }

    /// Tells whether the result is known to be right.
    pub fn is_correct(&self) -> (yes: bool)
        ensures
            yes == (self@.correct == Correctness::Correct),
    {
        self.correct.is_correct()
    }
}

} // verus!
