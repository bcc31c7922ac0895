use vstd::prelude::*;
use vstd::string::*;

use crate::json::{Json, parse_document, parsed_json, shape_error};
use crate::models::{ChatCompletionResponse, Usage, opt_string_from_json, opt_string_of_json};

verus! {

#[verifier::external_type_specification]
#[verifier::external_body]
pub struct ExHttpError(reqwest::Error);

/// Every way in which a call can fail.
#[derive(Debug)]
pub enum DeepSeekError {
    /// The exchange itself failed (name resolution, TLS, a dropped connection).
    Network(reqwest::Error),
    /// A success body that is not a response of the expected shape.
    Serde(serde_json::Error),
    /// No credential was configured.
    MissingApiKey,
    Unauthorized,
    Forbidden,
    InsufficientBalance,
    RateLimited,
    Server { status: u16 },
    /// Any other failure that the service reported, with its message.
    Api { status: u16, message: String },
}

/// The error object that the service may send with a failure.
#[derive(Debug, Clone, PartialEq)]
pub struct ApiErrorBody {
    pub message: Option<String>,
    pub error_type: Option<String>,
    pub code: Option<String>,
}

/// The envelope around the service's error object.
#[derive(Debug, Clone, PartialEq)]
pub struct ApiErrorEnvelope {
    pub error: Option<ApiErrorBody>,
}

/// Whether `pat` occurs in `s` as a run of consecutive characters.
pub open spec fn has_substring(s: Seq<char>, pat: Seq<char>) -> bool {
    exists|i: int| 0 <= i <= s.len() - pat.len() && #[trigger] s.subrange(i, i + pat.len()) == pat
}

/// Relies on `str::contains` with a `&str` pattern: whether the pattern
/// matches a sub-slice of the string.
#[verifier::external_body]
fn contains_text(s: &str, pat: &str) -> (r: bool)
    ensures
        r == has_substring(s@, pat@),
{
    s.contains(pat)
}

/// The phrase by which the service marks a failure for want of credit.
pub open spec fn balance_phrase() -> Seq<char> {
    "Insufficient Balance"@
}

impl ApiErrorBody {
    /// An object whose `message`, `type` and `code` are each absent, `null`
    /// or a string.
    pub open spec fn of_json(j: Json) -> Option<ApiErrorBody> {
        if j is Object {
            match (
                opt_string_of_json(j.field("message"@)),
                opt_string_of_json(j.field("type"@)),
                opt_string_of_json(j.field("code"@)),
            ) {
                (Some(message), Some(error_type), Some(code)) => Some(
                    ApiErrorBody { message, error_type, code },
                ),
                _ => None,
            }
        } else {
            None
        }
    }

    pub fn from_json(j: &Json) -> (r: Option<ApiErrorBody>)
        ensures
            r == ApiErrorBody::of_json(*j),
    {
        match j {
            Json::Object(_) => {},
            _ => return None,
        }
        let message = opt_string_from_json(j.get("message"));
        let error_type = opt_string_from_json(j.get("type"));
        let code = opt_string_from_json(j.get("code"));
        match (message, error_type, code) {
            (Some(message), Some(error_type), Some(code)) => Some(
                ApiErrorBody { message, error_type, code },
            ),
            _ => None,
        }
    }
}

impl ApiErrorEnvelope {
    /// An object whose `error` is absent, `null` or an error object.
    pub open spec fn of_json(j: Json) -> Option<ApiErrorEnvelope> {
        if j is Object {
            match j.field("error"@) {
                None => Some(ApiErrorEnvelope { error: None }),
                Some(Json::Null) => Some(ApiErrorEnvelope { error: None }),
                Some(e) => match ApiErrorBody::of_json(e) {
                    Some(b) => Some(ApiErrorEnvelope { error: Some(b) }),
                    None => None,
                },
            }
        } else {
            None
        }
    }

    pub fn from_json(j: &Json) -> (r: Option<ApiErrorEnvelope>)
        ensures
            r == ApiErrorEnvelope::of_json(*j),
    {
        match j {
            Json::Object(_) => {},
            _ => return None,
        }
        match j.get("error") {
            None => Some(ApiErrorEnvelope { error: None }),
            Some(Json::Null) => Some(ApiErrorEnvelope { error: None }),
            Some(e) => match ApiErrorBody::from_json(e) {
                Some(b) => Some(ApiErrorEnvelope { error: Some(b) }),
                None => None,
            },
        }
    }
}

/// The message of a failure: the `error.message` of the envelope where the
/// body is one and has it, else the body itself.
pub open spec fn failure_message(body: Seq<char>, parsed: Option<Json>) -> Seq<char> {
    match parsed {
        Some(j) => match ApiErrorEnvelope::of_json(j) {
            Some(ApiErrorEnvelope { error: Some(ApiErrorBody { message: Some(m), .. }) }) => m@,
            _ => body,
        },
        None => body,
    }
}

/// Picks the message of a failure out of its body and what the body parsed to.
pub fn message_of_failure(body: &String, parsed: &Option<Json>) -> (r: String)
    ensures
        r@ == failure_message(body@, *parsed),
{
    match parsed {
        Some(j) => match ApiErrorEnvelope::from_json(j) {
            Some(ApiErrorEnvelope { error: Some(ApiErrorBody { message: Some(m), .. }) }) => m,
            _ => body.clone(),
        },
        None => body.clone(),
    }
}

/// The error kind of a failure status and its message. Specific statuses
/// come first; a 402 counts as a want of credit only where its message
/// says so; anything else is a generic service error.
pub open spec fn classified(status: u16, message: Seq<char>, r: DeepSeekError) -> bool {
    if status == 401 {
        r is Unauthorized
    } else if status == 403 {
        r is Forbidden
    } else if status == 402 && has_substring(message, balance_phrase()) {
        r is InsufficientBalance
    } else if status == 429 {
        r is RateLimited
    } else if 500 <= status <= 599 {
        r == DeepSeekError::Server { status }
    } else {
        match r {
            DeepSeekError::Api { status: s, message: m } => s == status && m@ == message,
            _ => false,
        }
    }
}

/// Sorts a failure status with its message into an error kind.
pub fn classify_failure(status: u16, message: String) -> (r: DeepSeekError)
    ensures
        classified(status, message@, r),
{
    proof {
        reveal_strlit("Insufficient Balance");
    }
    if status == 401 {
        DeepSeekError::Unauthorized
    } else if status == 403 {
        DeepSeekError::Forbidden
    } else if status == 402 && contains_text(message.as_str(), "Insufficient Balance") {
        DeepSeekError::InsufficientBalance
    } else if status == 429 {
        DeepSeekError::RateLimited
    } else if 500 <= status && status <= 599 {
        DeepSeekError::Server { status }
    } else {
        DeepSeekError::Api { status, message }
    }
}


/// What a reply comes to. A 2xx status reads the body as a response, and a
/// body that is not one is a decoding error; any other status is a failure
/// classified by its status and message.
pub open spec fn reply_outcome(
    status: u16,
    body: Seq<char>,
    parsed: Option<Json>,
    r: Result<ChatCompletionResponse, DeepSeekError>,
) -> bool {
    if 200 <= status <= 299 {
        match parsed {
            Some(j) => match ChatCompletionResponse::of_json(j) {
                Some(v) => (r is Ok && r->Ok_0@ == v),
                None => (r matches Err(DeepSeekError::Serde(_))),
            },
            None => (r matches Err(DeepSeekError::Serde(_))),
        }
    } else {
        r is Err && classified(status, failure_message(body, parsed), r->Err_0)
    }
}

/// Names the member for which a document is not a chat completion response.
fn response_problem(j: &Json) -> &'static str {
    match j {
        Json::Object(_) => {},
        _ => return "a chat completion response must be a JSON object",
    }
    match j.get("id") {
        Some(Json::Str(_)) => {},
        _ => return "missing or invalid field `id`: expected a string",
    }
    match j.get("choices") {
        Some(Json::Array(_)) => {},
        _ => return "missing or invalid field `choices`: expected an array",
    }
    match j.get("usage") {
        None => {},
        Some(Json::Null) => {},
        Some(u) => if Usage::from_json(u).is_none() {
            return "invalid field `usage`: expected `prompt_tokens`, `completion_tokens` and `total_tokens` as unsigned integers";
        },
    }
    "invalid entry in `choices`: expected an unsigned `index` and a `message` with a known `role` and an optional string `content`"
}

/// Turns a reply's status and body, with what the body parsed to, into a
/// response or an error.
pub fn interpret_reply(status: u16, body: String, parsed: Result<Json, serde_json::Error>) -> (r: Result<
    ChatCompletionResponse,
    DeepSeekError,
>)
    ensures
        reply_outcome(status, body@, parsed.ok(), r),
{
    if 200 <= status && status <= 299 {
        match parsed {
            Ok(j) => match ChatCompletionResponse::from_json(&j) {
                Some(resp) => Ok(resp),
                None => Err(DeepSeekError::Serde(shape_error(response_problem(&j)))),
            },
            Err(e) => Err(DeepSeekError::Serde(e)),
        }
    } else {
        let parsed = parsed.ok();
        let message = message_of_failure(&body, &parsed);
        Err(classify_failure(status, message))
    }
}

/// Reads a reply's status and body: parses the body, then interprets it.
pub fn decode_reply(status: u16, body: String) -> (r: Result<ChatCompletionResponse, DeepSeekError>)
    ensures
        reply_outcome(status, body@, parsed_json(body@), r),
{
    let parsed = parse_document(body.as_str());
    proof {
        assert(parsed.ok() == parsed_json(body@));
    }
    interpret_reply(status, body, parsed)
}


/// A success status whose body is not JSON, or is JSON of another shape,
/// comes out as a decoding error: never as a response, never as another kind.
pub proof fn lemma_unreadable_success_is_decoding_error(
    status: u16,
    body: Seq<char>,
    parsed: Option<Json>,
    r: Result<ChatCompletionResponse, DeepSeekError>,
)
    requires
        200 <= status <= 299,
        parsed is None || ChatCompletionResponse::of_json(parsed->0) is None,
        reply_outcome(status, body, parsed, r),
    ensures
        r matches Err(DeepSeekError::Serde(_)),
{
}

} // verus!
