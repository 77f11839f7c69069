//! The envelope of an answer: the result it holds, or the refusal.
use crate::text;
use vstd::prelude::*;
use vstd::string::*;

verus! {

/// A JSON value, as serde_json reads it.
#[verifier::external_type_specification]
#[verifier::external_body]
pub struct ExValue(serde_json::Value);

/// Why a text is no JSON, as serde_json says it.
#[verifier::external_type_specification]
#[verifier::external_body]
pub struct ExError(serde_json::Error);

/// What serde_json reads in a text.
pub uninterp spec fn json_read(text: Seq<char>) -> Result<serde_json::Value, serde_json::Error>;

/// The members of a JSON object, by name; none where the value is no object.
pub uninterp spec fn json_members(value: serde_json::Value) -> Map<Seq<char>, serde_json::Value>;

/// The text of a JSON string; none where the value is no string.
pub uninterp spec fn json_text(value: serde_json::Value) -> Option<Seq<char>>;

/// The words of a JSON error.
pub uninterp spec fn json_complaint(error: serde_json::Error) -> Seq<char>;

/// `serde_json::from_str`, to a `Value`: a function of the text alone.
#[verifier::external_body]
fn parse(text: &str) -> (r: Result<serde_json::Value, serde_json::Error>)
    ensures
        r == json_read(text@),
{
    serde_json::from_str(text)
}

/// `serde_json::Value::get` with a name: the member of that name of an object, and nothing where
/// the object has none or the value is no object.
#[verifier::external_body]
fn member<'a>(value: &'a serde_json::Value, name: &str) -> (r: Option<&'a serde_json::Value>)
    ensures
        match r {
            Some(found) => json_members(*value).dom().contains(name@) && json_members(*value)[name@]
                == *found,
            None => !json_members(*value).dom().contains(name@),
        },
{
    value.get(name)
}

/// `serde_json::Value::get_mut` with a name and `serde_json::Value::take`: the member of that
/// name, moved out. Nothing is said of what is left of the value.
#[verifier::external_body]
fn take_member(value: serde_json::Value, name: &str) -> (r: Option<serde_json::Value>)
    ensures
        match r {
            Some(found) => json_members(value).dom().contains(name@) && json_members(value)[name@]
                == found,
            None => !json_members(value).dom().contains(name@),
        },
{
    let mut value = value;
    value.get_mut(name).map(|found| found.take())
}

/// `serde_json::Value::as_str`: the text of a string, and nothing of any other value.
#[verifier::external_body]
fn as_text(value: &serde_json::Value) -> (r: Option<&str>)
    ensures
        text::opt_str(r) == json_text(*value),
{
    value.as_str()
}

/// The `Display` of `serde_json::Error`, through `to_string`: a function of the error alone.
#[verifier::external_body]
fn complaint(error: &serde_json::Error) -> (r: String)
    ensures
        r@ == json_complaint(*error),
{
    error.to_string()
}

/// How a call ended, in three cases and not two: a refusal is a fault of the request, a service
/// that cannot be reached is not.
pub enum Outcome {
    /// The service answered. Nothing stands for a null.
    Done(Option<serde_json::Value>),
    /// The service refused.
    Refused(String),
    /// The transport failed: nothing was served.
    Down(String),
}

/// Whether an outcome is what an answer says: unreadable, it is a failure of the transport; with
/// an `error`, a refusal in the words of its `message`; otherwise its `result` is handed on.
pub open spec fn says(
    parsed: Result<serde_json::Value, serde_json::Error>,
    outcome: Outcome,
) -> bool {
    match parsed {
        Err(error) => outcome matches Outcome::Down(words) && words@ == "réponse illisible : "@
            + json_complaint(error),
        Ok(value) => {
            let members = json_members(value);
            if members.dom().contains("error"@) {
                let inner = json_members(members["error"@]);
                let words = if inner.dom().contains("message"@) {
                    json_text(inner["message"@])
                } else {
                    None
                };
                outcome matches Outcome::Refused(said) && said@ == match words {
                    Some(w) => w,
                    None => "erreur sans message"@,
                }
            } else {
                outcome == Outcome::Done(
                    if members.dom().contains("result"@) {
                        Some(members["result"@])
                    } else {
                        None
                    },
                )
            }
        },
    }
}

/// What an answer says, once it was read.
pub fn outcome_of(parsed: Result<serde_json::Value, serde_json::Error>) -> (r: Outcome)
    ensures
        says(parsed, r),
{
    match parsed {
        Err(error) => {
            let mut words = "réponse illisible : ".to_owned();
            words.append(complaint(&error).as_str());
            Outcome::Down(words)
        },
        Ok(value) => {
            match member(&value, "error") {
                Some(error) => {
                    let words = match member(error, "message") {
                        Some(message) => as_text(message),
                        None => None,
                    };
                    return Outcome::Refused(
                        match words {
                            Some(said) => said.to_owned(),
                            None => "erreur sans message".to_owned(),
                        },
                    );
                },
                None => {},
            }
            Outcome::Done(take_member(value, "result"))
        },
    }
}

/// What the text of an answer says.
pub fn extract(response: &str) -> (r: Outcome)
    ensures
        says(json_read(response@), r),
{
    outcome_of(parse(response))
}

} // verus!
