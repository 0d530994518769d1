//! Interpretation of the remote translation service's response: extracting
//! the translated text from the JSON reply, and classifying it as ordinary
//! text to synthesize, a termination signal, or a malformed reply.

use vstd::prelude::*;
use crate::phrase::{contains_slice, contains_subseq};

verus! {

/// The string value of the top-level `field` member of `resp`, as UTF-8
/// bytes, when `resp` is a JSON object with a string under that member;
/// `None` for every other shape. Named here, defined by serde_json.
pub uninterp spec fn string_field_of(resp: Seq<char>, field: Seq<char>) -> Option<Seq<u8>>;

/// Relies on serde_json::from_str::<serde_json::Value>, serde_json::Value::get
/// and serde_json::Value::as_str: parses `resp` as JSON, looks up the member
/// named `field` of the top-level object, and returns its string value as
/// UTF-8 bytes; `None` when `resp` is not valid JSON, its top level is not an
/// object, the member is absent, or the member is not a string. The result
/// depends on the characters of `resp` and `field` alone.
#[verifier::external_body]
fn json_string_field(resp: &str, field: &str) -> (r: Option<Vec<u8>>)
    ensures
        r is Some <==> string_field_of(resp@, field@) is Some,
        r matches Some(v) ==> string_field_of(resp@, field@) == Some(v@),
{
    match serde_json::from_str::<serde_json::Value>(resp) {
        Ok(value) => match value.get(field) {
            Some(member) => member.as_str().map(|s| s.as_bytes().to_vec()),
            None => None,
        },
        Err(_) => None,
    }
}

/// The translated text, as the termination phrase is looked for in it:
/// the byte sequence of the word "finish".
pub open spec fn termination_phrase() -> Seq<u8> {
    seq![102u8, 105u8, 110u8, 105u8, 115u8, 104u8]
}

/// The termination phrase as bytes.
pub fn termination_phrase_bytes() -> (r: Vec<u8>)
    ensures
        r@ === termination_phrase(),
{
    let mut v: Vec<u8> = Vec::new();
    v.push(102);
    v.push(105);
    v.push(110);
    v.push(105);
    v.push(115);
    v.push(104);
    proof {
        assert(v@ =~= termination_phrase());
    }
    v
}

/// What the pipeline is to do with one translation response.
pub enum TranslateOutcome {
    /// The response carried ordinary translated text (UTF-8 bytes): hand it
    /// to the synthesize-and-play stage.
    Speak(Vec<u8>),
    /// The translated text contained the termination phrase: shut down.
    Terminate,
    /// The response was not a JSON object with a string `text` member: a
    /// remote-service error, fatal to the pipeline.
    Malformed,
}

/// Classifies translated text: a termination signal exactly when the
/// termination phrase occurs in it, otherwise text to speak, unchanged.
pub fn classify_text(text: Vec<u8>) -> (r: TranslateOutcome)
    ensures
        contains_subseq(text@, termination_phrase()) ==> r is Terminate,
        !contains_subseq(text@, termination_phrase()) ==> (r matches TranslateOutcome::Speak(t)
            && t@ === text@),
{
    let needle = termination_phrase_bytes();
    if contains_slice(text.as_slice(), needle.as_slice()) {
        TranslateOutcome::Terminate
    } else {
        TranslateOutcome::Speak(text)
    }
}

/// Classifies one raw translation response: malformed when it is not a JSON
/// object with a string `text` member; a termination signal when that text
/// contains the termination phrase; otherwise the text itself, unchanged.
pub fn classify_response(resp: &str) -> (r: TranslateOutcome)
    ensures
        string_field_of(resp@, "text"@) is None ==> r is Malformed,
        string_field_of(resp@, "text"@) matches Some(t) ==> {
            &&& contains_subseq(t, termination_phrase()) ==> r is Terminate
            &&& !contains_subseq(t, termination_phrase()) ==> (r
                matches TranslateOutcome::Speak(v) && v@ === t)
        },
{
    match json_string_field(resp, "text") {
        Some(text) => classify_text(text),
        None => TranslateOutcome::Malformed,
    }
}

} // verus!
