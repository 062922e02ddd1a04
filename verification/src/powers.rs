//! The capabilities granted to the model: what it may ask to have done to the
//! current text.
use vstd::prelude::*;
use vstd::string::StringExecFns;

use crate::text::chars_of;

verus! {

/// `pattern` stands in `text` at index `at`.
pub open spec fn occurs_at(text: Seq<char>, pattern: Seq<char>, at: int) -> bool {
    0 <= at && at + pattern.len() <= text.len() && text.subrange(at, at + pattern.len())
        == pattern
}

/// `pattern` stands somewhere in `text`.
pub open spec fn occurs_in(text: Seq<char>, pattern: Seq<char>) -> bool {
    exists|at: int| occurs_at(text, pattern, at)
}

/// `text` with every occurrence of `from` replaced by `to`. Occurrences are
/// taken from left to right and do not overlap. An empty `from` occurs before
/// every character and at the end.
pub open spec fn replaced(text: Seq<char>, from: Seq<char>, to: Seq<char>) -> Seq<char>
    decreases text.len(),
{
    if text.len() == 0 {
        if from.len() == 0 {
            to
        } else {
            Seq::empty()
        }
    } else if from.len() == 0 {
        to + seq![text[0]] + replaced(text.skip(1), from, to)
    } else if from.is_prefix_of(text) {
        to + replaced(text.skip(from.len() as int), from, to)
    } else {
        seq![text[0]] + replaced(text.skip(1), from, to)
    }
}

/// Tells whether `pattern` stands in `text` at index `at`.
fn matches_at(text: &Vec<char>, pattern: &Vec<char>, at: usize) -> (found: bool)
    requires
        at <= text.len(),
    ensures
        found == occurs_at(text@, pattern@, at as int),
{
    if pattern.len() > text.len() - at {
        return false;
    }
    let mut k: usize = 0;
    while k < pattern.len()
        invariant
            k <= pattern.len(),
            at + pattern.len() <= text.len(),
            forall|j: int| 0 <= j < k ==> text[at + j] == pattern[j],
        decreases pattern.len() - k,
    {
        if text[at + k] != pattern[k] {
            return false;
        }
        k += 1;
    }
    proof {
        assert(text@.subrange(at as int, at + pattern.len()) =~= pattern@);
    }
    true
}

/// Tells whether `pattern` stands somewhere in `text`.
pub fn contains(text: &str, pattern: &str) -> (found: bool)
    ensures
        found == occurs_in(text@, pattern@),
{
    let letters = chars_of(text);
    let wanted = chars_of(pattern);
    let mut at: usize = 0;
    while at < letters.len()
        invariant
            at <= letters.len(),
            letters@ == text@,
            wanted@ == pattern@,
            forall|j: int| 0 <= j < at ==> !occurs_at(text@, pattern@, j),
        decreases letters.len() - at,
    {
        if matches_at(&letters, &wanted, at) {
            return true;
        }
        at += 1;
    }
    matches_at(&letters, &wanted, at)
}

/// `text` with every occurrence of `from` replaced by `to`.
pub fn replace_all(text: &str, from: &str, to: &str) -> (result: String)
    ensures
        result@ == replaced(text@, from@, to@),
{
    let letters = chars_of(text);
    let wanted = chars_of(from);
    let mut out = String::new();
    let mut at: usize = 0;
    proof {
        assert(text@.skip(0) =~= text@);
    }
    while at < letters.len()
        invariant
            at <= letters.len(),
            letters@ == text@,
            wanted@ == from@,
            out@ + replaced(text@.skip(at as int), from@, to@) == replaced(text@, from@, to@),
        decreases letters.len() - at,
    {
        let ghost left = text@.skip(at as int);
        proof {
            assert(left.skip(1) =~= text@.skip(at + 1));
        }
        if wanted.len() == 0 {
            out.append(to);
            out.push(letters[at]);
            at += 1;
        } else if matches_at(&letters, &wanted, at) {
            out.append(to);
            proof {
                assert(left.skip(from@.len() as int) =~= text@.skip(at + from@.len()));
            }
            at += wanted.len();
        } else {
            out.push(letters[at]);
            proof {
                if from@.is_prefix_of(left) {
                    assert(left.subrange(0, from@.len() as int) =~= text@.subrange(
                        at as int,
                        at + from@.len(),
                    ));
                }
            }
            at += 1;
        }
    }
    if wanted.len() == 0 {
        out.append(to);
    }
    out
}

/// The kinds of capability.
#[derive(Debug, Clone, Copy, PartialEq, Eq, Structural)]
pub enum PowerKind {
    Replace,
    RegexReplace,
    Note,
    RequestNewCapability,
    Prepend,
    Append,
}

impl PowerKind {
    /// The name by which the model calls the capability.
    pub open spec fn name_text(self) -> Seq<char> {
        match self {
            PowerKind::Replace => "replace"@,
            PowerKind::RegexReplace => "regex_replace"@,
            PowerKind::Note => "note"@,
            PowerKind::RequestNewCapability => "request_new_capability"@,
            PowerKind::Prepend => "prepend"@,
            PowerKind::Append => "append"@,
        }
    }

    /// What the model is told that the capability does.
    pub open spec fn description_text(self) -> Seq<char> {
        match self {
            PowerKind::Replace => "replace all occurences of \"from\" with \"to\""@,
            PowerKind::RegexReplace => "replace all non-overlapping matches of \"from\" in the text with the \"to\""@,
            PowerKind::Note => "insert a note to self, use this for chain-of-thought reasoning"@,
            PowerKind::RequestNewCapability => "request a new capability, the request will be presented to the user who will will implement the function"@,
            PowerKind::Prepend => "prepend the string to the current string"@,
            PowerKind::Append => "append the string to the current string"@,
        }
    }

    /// The name by which the model calls the capability.
    pub fn name(&self) -> (name: &'static str)
        ensures
            name@ == self.name_text(),
    {
        match self {
            PowerKind::Replace => "replace",
            PowerKind::RegexReplace => "regex_replace",
            PowerKind::Note => "note",
            PowerKind::RequestNewCapability => "request_new_capability",
            PowerKind::Prepend => "prepend",
            PowerKind::Append => "append",
        }
    }

    /// What the model is told that the capability does.
    pub fn description(&self) -> (description: &'static str)
        ensures
            description@ == self.description_text(),
    {
        match self {
            PowerKind::Replace => "replace all occurences of \"from\" with \"to\"",
            PowerKind::RegexReplace => "replace all non-overlapping matches of \"from\" in the text with the \"to\"",
            PowerKind::Note => "insert a note to self, use this for chain-of-thought reasoning",
            PowerKind::RequestNewCapability => "request a new capability, the request will be presented to the user who will will implement the function",
            PowerKind::Prepend => "prepend the string to the current string",
            PowerKind::Append => "append the string to the current string",
        }
    }

    /// All kinds, in the order in which the model is told of them.
    pub open spec fn every() -> Seq<PowerKind> {
        seq![
            PowerKind::Replace,
            PowerKind::RegexReplace,
            PowerKind::Note,
            PowerKind::RequestNewCapability,
            PowerKind::Prepend,
            PowerKind::Append,
        ]
    }

    /// All kinds, in the order in which the model is told of them.
    pub fn all() -> (kinds: Vec<PowerKind>)
        ensures
            kinds@ == PowerKind::every(),
    {
        let mut kinds: Vec<PowerKind> = Vec::new();
        kinds.push(PowerKind::Replace);
        kinds.push(PowerKind::RegexReplace);
        kinds.push(PowerKind::Note);
        kinds.push(PowerKind::RequestNewCapability);
        kinds.push(PowerKind::Prepend);
        kinds.push(PowerKind::Append);
        kinds
    }

    /// The kind that goes by `name`, if there is one.
    pub open spec fn named(name: Seq<char>) -> Option<PowerKind> {
        if name == PowerKind::Replace.name_text() {
            Some(PowerKind::Replace)
        } else if name == PowerKind::RegexReplace.name_text() {
            Some(PowerKind::RegexReplace)
        } else if name == PowerKind::Note.name_text() {
            Some(PowerKind::Note)
        } else if name == PowerKind::RequestNewCapability.name_text() {
            Some(PowerKind::RequestNewCapability)
        } else if name == PowerKind::Prepend.name_text() {
            Some(PowerKind::Prepend)
        } else if name == PowerKind::Append.name_text() {
            Some(PowerKind::Append)
        } else {
            None
        }
    }

    /// Finds the kind that the model means by `name`.
    pub fn find(name: &str) -> (kind: Option<PowerKind>)
        ensures
            kind == PowerKind::named(name@),
    {
        let kinds = PowerKind::all();
        let wanted = String::from_str(name);
        let mut i: usize = 0;
        while i < kinds.len()
            invariant
                i <= kinds.len(),
                kinds@ == PowerKind::every(),
                wanted@ == name@,
                forall|j: int| 0 <= j < i ==> (#[trigger] PowerKind::every()[j]).name_text() != name@,
            decreases kinds.len() - i,
        {
            if String::from_str(kinds[i].name()) == wanted {
                return Some(kinds[i]);
            }
            i += 1;
        }
        proof {
            assert(PowerKind::every()[0] == PowerKind::Replace);
            assert(PowerKind::every()[1] == PowerKind::RegexReplace);
            assert(PowerKind::every()[2] == PowerKind::Note);
            assert(PowerKind::every()[3] == PowerKind::RequestNewCapability);
            assert(PowerKind::every()[4] == PowerKind::Prepend);
            assert(PowerKind::every()[5] == PowerKind::Append);
        }
        None
    }
}

/// A capability with its arguments: what the model asks to have done to the
/// current text.
#[derive(Debug, Clone, PartialEq, Eq)]
pub enum Power {
    /// Replace all occurrences of `from` with `to`.
    Replace { from: String, to: String },
    /// Replace all matches of the regular expression `from` with `to`.
    RegexReplace { from: String, to: String },
    /// A note of the model to itself.
    Note(String),
    /// The wish for a capability that does not exist yet.
    RequestNewCapability {
        name: String,
        description: String,
        /// The schema of the arguments, as the text of a JSON value.
        schema: String,
        example_implementation: String,
    },
    /// Put the string before the current text.
    Prepend(String),
    /// Put the string behind the current text.
    Append(String),
}

/// Why a capability could not be executed.
#[derive(Debug, Clone, PartialEq, Eq)]
pub enum PowerError {
    /// The text to replace does not occur in the current text.
    NotFound { from: String, current: String },
    /// The regular expression does not compile; `message` says why.
    InvalidPattern { message: String },
}

impl PowerError {
    /// The words that describe the error, for a person to read.
    pub fn message(&self) -> (text: String)
        ensures
            match self {
                PowerError::NotFound { from, current } => text@ == from@ + " not found in "@
                    + current@,
                PowerError::InvalidPattern { message } => text@ == message@,
            },
    {
        match self {
            PowerError::NotFound { from, current } => {
                from.clone().concat(" not found in ").concat(current.as_str())
            },
            PowerError::InvalidPattern { message } => message.clone(),
        }
    }
}

/// `text` with every match of the regular expression `pattern`, in which a
/// dot matches a newline too, replaced by what `replacement` expands to, as
/// the `regex` crate does it; `None` where the pattern does not compile.
pub uninterp spec fn regex_replaced(
    pattern: Seq<char>,
    text: Seq<char>,
    replacement: Seq<char>,
) -> Option<Seq<char>>;

#[verifier::external_type_specification]
#[verifier::external_body]
pub struct ExRegexError(regex::Error);

/// Compiles `pattern` with `regex::RegexBuilder`, with
/// `dot_matches_new_line` switched on, and calls `regex::Regex::replace_all`.
///
/// Not proved: that the outcome depends on the three texts alone. It is the
/// error of `RegexBuilder::build` where the pattern does not compile, and
/// what `replace_all` returns else.
#[verifier::external_body]
fn regex_replace_all(pattern: &str, text: &str, replacement: &str) -> (result: Result<
    String,
    regex::Error,
>)
    ensures
        match result {
            Ok(replaced) => regex_replaced(pattern@, text@, replacement@) == Some(replaced@),
            Err(_) => regex_replaced(pattern@, text@, replacement@) is None,
        },
{
    let re = regex::RegexBuilder::new(pattern).dot_matches_new_line(true).build()?;
    Ok(re.replace_all(text, replacement).into_owned())
}

/// The words of a `regex::Error`, as its `Display` gives them.
#[verifier::external_body]
fn regex_error_text(error: &regex::Error) -> String {
    error.to_string()
}

impl Power {
    /// The kind of the capability.
    pub fn kind(&self) -> (kind: PowerKind)
        ensures
            kind == match self {
                Power::Replace { .. } => PowerKind::Replace,
                Power::RegexReplace { .. } => PowerKind::RegexReplace,
                Power::Note(_) => PowerKind::Note,
                Power::RequestNewCapability { .. } => PowerKind::RequestNewCapability,
                Power::Prepend(_) => PowerKind::Prepend,
                Power::Append(_) => PowerKind::Append,
            },
    {
        match self {
            Power::Replace { .. } => PowerKind::Replace,
            Power::RegexReplace { .. } => PowerKind::RegexReplace,
            Power::Note(_) => PowerKind::Note,
            Power::RequestNewCapability { .. } => PowerKind::RequestNewCapability,
            Power::Prepend(_) => PowerKind::Prepend,
            Power::Append(_) => PowerKind::Append,
        }
    }

    /// The text that the capability makes of `current`, or `None` where it
    /// fails: a replace whose `from` does not occur in `current`, or a regex
    /// replace whose pattern does not compile.
    pub open spec fn executed(&self, current: Seq<char>) -> Option<Seq<char>> {
        match self {
            Power::Replace { from, to } => if occurs_in(current, from@) {
                Some(replaced(current, from@, to@))
            } else {
                None
            },
            Power::RegexReplace { from, to } => regex_replaced(from@, current, to@),
            Power::Note(_) => Some(current),
            Power::RequestNewCapability { .. } => Some(current),
            Power::Prepend(text) => Some(text@ + current),
            Power::Append(text) => Some(current + text@),
        }
    }
}

/// Executes the capability on the current text.
pub fn execute(power: &Power, current: String) -> (result: Result<String, PowerError>)
    ensures
        match result {
            Ok(text) => power.executed(current@) == Some(text@),
            Err(PowerError::NotFound { from, current: searched }) => {
                &&& power.executed(current@) is None
                &&& searched@ == current@
                &&& power matches Power::Replace { from: wanted, .. } && from@ == wanted@
            },
            Err(PowerError::InvalidPattern { .. }) => power.executed(current@) is None
                && power is RegexReplace,
        },
{
    match power {
        Power::Replace { from, to } => {
            if !contains(current.as_str(), from.as_str()) {
                return Err(PowerError::NotFound { from: from.clone(), current });
            }
            Ok(replace_all(current.as_str(), from.as_str(), to.as_str()))
        },
        Power::RegexReplace { from, to } => {
            match regex_replace_all(from.as_str(), current.as_str(), to.as_str()) {
                Ok(text) => Ok(text),
                Err(error) => Err(PowerError::InvalidPattern { message: regex_error_text(&error) }),
            }
        },
        Power::Note(_) => Ok(current),
        Power::RequestNewCapability { .. } => Ok(current),
        Power::Prepend(text) => Ok(text.clone().concat(current.as_str())),
        Power::Append(text) => Ok(current.concat(text.as_str())),
    }
}

} // verus!
