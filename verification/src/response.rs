//! The response of a request: what came back, and what kind of content
//! its body is taken for.

use vstd::prelude::*;
use vstd::string::{StringExecFns, StringSliceAdditionalSpecFns};
use vstd::utf8::valid_utf8;

verus! {

/// The body of a response, by the kind it is taken for.
#[derive(Clone, Debug, PartialEq, Eq)]
pub enum ResponseContent {
    /// Text, shown as it came.
    Text(String),
    /// JSON, printed again with indentation.
    Json(String),
    /// An image: its bytes and its media type.
    Image(Vec<u8>, String),
    /// Bytes that are no text.
    Binary(Vec<u8>),
    /// No body: what went wrong.
    Error(String),
}

/// A `ResponseContent` with its texts as sequences of characters.
pub enum ContentView {
    /// Text.
    Text(Seq<char>),
    /// JSON.
    Json(Seq<char>),
    /// An image: its bytes and its media type.
    Image(Seq<u8>, Seq<char>),
    /// Bytes that are no text.
    Binary(Seq<u8>),
    /// What went wrong.
    Error(Seq<char>),
}

impl View for ResponseContent {
    type V = ContentView;

    open spec fn view(&self) -> ContentView {
        match self {
            ResponseContent::Text(text) => ContentView::Text(text@),
            ResponseContent::Json(text) => ContentView::Json(text@),
            ResponseContent::Image(bytes, mime) => ContentView::Image(bytes@, mime@),
            ResponseContent::Binary(bytes) => ContentView::Binary(bytes@),
            ResponseContent::Error(text) => ContentView::Error(text@),
        }
    }
}

/// A response as the application shows it.
#[derive(Clone, Debug)]
pub struct Response {
    /// The status code; zero when no response came.
    pub status: u16,
    /// The reason that goes with the status code.
    pub status_text: String,
    /// The header fields, in the order in which they came.
    pub headers: Vec<(String, String)>,
    /// The body.
    pub content: ResponseContent,
    /// How long the request took, in milliseconds.
    pub elapsed_ms: u64,
    /// Number of bytes of the body.
    pub size_bytes: usize,
}

/// How a status code is shown.
#[derive(Clone, Copy, Debug, PartialEq, Eq, Structural)]
pub enum StatusClass {
    /// From 200 to 299.
    Success,
    /// From 400 on.
    Failure,
    /// Every other code.
    Other,
}

impl Response {
    /// The response that stands for a request that failed.
    pub fn from_error(error: String) -> (response: Self)
        ensures
            response.status == 0,
            response.status_text@ == "Error"@,
            response.headers@.len() == 0,
            response.content@ == ContentView::Error(error@),
            response.elapsed_ms == 0,
            response.size_bytes == 0,
    {
        Response {
            status: 0,
            status_text: String::from_str("Error"),
            headers: Vec::new(),
            content: ResponseContent::Error(error),
            elapsed_ms: 0,
            size_bytes: 0,
        }
    }

    /// The response to a request that was answered: the body is taken
    /// for what `parse_response_content` says, and a status without a
    /// known reason is "Unknown".
    pub fn from_parts(
        status: u16,
        reason: Option<&str>,
        headers: Vec<(String, String)>,
        content_type: Option<&str>,
        body: Vec<u8>,
        elapsed_ms: u64,
    ) -> (response: Self)
        ensures
            response.status == status,
            response.status_text@ == match reason {
                Some(text) => text@,
                None => "Unknown"@,
            },
            response.headers == headers,
            is_content_of(content_type_or_default(content_type), body@, response.content@),
            response.elapsed_ms == elapsed_ms,
            response.size_bytes == body@.len(),
    {
        let size_bytes = body.len();
        let status_text = match reason {
            Some(text) => String::from_str(text),
            None => String::from_str("Unknown"),
        };
        Response {
            status,
            status_text,
            headers,
            content: parse_response_content(content_type, body),
            elapsed_ms,
            size_bytes,
        }
    }

    /// The name of the kind of content.
    pub fn content_type(&self) -> (name: &'static str)
        ensures
            name@ == match self.content@ {
                ContentView::Text(_) => "Text"@,
                ContentView::Json(_) => "JSON"@,
                ContentView::Image(_, _) => "Image"@,
                ContentView::Binary(_) => "Binary"@,
                ContentView::Error(_) => "Error"@,
            },
    {
        match &self.content {
            ResponseContent::Text(_) => "Text",
            ResponseContent::Json(_) => "JSON",
            ResponseContent::Image(_, _) => "Image",
            ResponseContent::Binary(_) => "Binary",
            ResponseContent::Error(_) => "Error",
        }
    }

    /// Tells whether the body is JSON.
    pub fn is_json(&self) -> (b: bool)
        ensures
            b == (self.content@ is Json),
    {
        match &self.content {
            ResponseContent::Json(_) => true,
            _ => false,
        }
    }

    /// Tells whether the body is an image.
    pub fn is_image(&self) -> (b: bool)
        ensures
            b == (self.content@ is Image),
    {
        match &self.content {
            ResponseContent::Image(_, _) => true,
            _ => false,
        }
    }

    /// Tells whether the body is text.
    pub fn is_text(&self) -> (b: bool)
        ensures
            b == (self.content@ is Text),
    {
        match &self.content {
            ResponseContent::Text(_) => true,
            _ => false,
        }
    }

    /// How the status code is shown.
    pub fn status_class(&self) -> (class: StatusClass)
        ensures
            class == status_class_of(self.status),
    {
        if self.status >= 200 && self.status < 300 {
            StatusClass::Success
        } else if self.status >= 400 {
            StatusClass::Failure
        } else {
            StatusClass::Other
        }
    }
}

/// How the status code `status` is shown.
pub open spec fn status_class_of(status: u16) -> StatusClass {
    if 200 <= status < 300 {
        StatusClass::Success
    } else if status >= 400 {
        StatusClass::Failure
    } else {
        StatusClass::Other
    }
}

/// True when the bytes `part` stand in `whole` from index `at` on.
pub open spec fn occurs_at(whole: Seq<u8>, part: Seq<u8>, at: int) -> bool {
    0 <= at && at + part.len() <= whole.len() && whole.subrange(at, at + part.len()) == part
}

/// True when the bytes `part` stand somewhere in `whole`.
pub open spec fn occurs_in(whole: Seq<u8>, part: Seq<u8>) -> bool {
    exists|at: int| occurs_at(whole, part, at)
}

/// Tells whether the bytes `part` stand in `whole` from index `at` on.
fn matches_at(whole: &[u8], part: &[u8], at: usize) -> (b: bool)
    requires
        at + part@.len() <= whole@.len(),
    ensures
        b == occurs_at(whole@, part@, at as int),
{
    let n = part.len();
    let total = whole.len();
    let mut i: usize = 0;
    while i < n
        invariant
            n == part@.len(),
            total == whole@.len(),
            at + n <= total,
            0 <= i <= n,
            forall|j: int| 0 <= j < i ==> whole@[at + j] == part@[j],
        decreases n - i,
    {
        if whole[at + i] != part[i] {
            proof {
                assert(whole@.subrange(at as int, at + n)[i as int] != part@[i as int]);
            }
            return false;
        }
        i = i + 1;
    }
    proof {
        assert(whole@.subrange(at as int, at + n) =~= part@);
    }
    true
}

/// Tells whether `text` begins with `prefix`, byte for byte.
pub fn starts_with(text: &str, prefix: &str) -> (b: bool)
    ensures
        b == occurs_at(text.spec_bytes(), prefix.spec_bytes(), 0),
{
    let whole = text.as_bytes();
    let part = prefix.as_bytes();
    if part.len() > whole.len() {
        false
    } else {
        matches_at(whole, part, 0)
    }
}

/// Tells whether `word` stands somewhere in `text`, byte for byte.
pub fn contains(text: &str, word: &str) -> (b: bool)
    ensures
        b == occurs_in(text.spec_bytes(), word.spec_bytes()),
{
    let whole = text.as_bytes();
    let part = word.as_bytes();
    if part.len() > whole.len() {
        return false;
    }
    let last = whole.len() - part.len();
    let mut at: usize = 0;
    loop
        invariant
            whole@ == text.spec_bytes(),
            part@ == word.spec_bytes(),
            last == whole@.len() - part@.len(),
            0 <= at <= last,
            forall|j: int| 0 <= j < at ==> !occurs_at(whole@, part@, j),
        decreases last - at,
    {
        if matches_at(whole, part, at) {
            return true;
        }
        if at == last {
            return false;
        }
        at = at + 1;
    }
}

/// True when a content type says that the body is an image.
pub open spec fn declares_image(content_type: Seq<char>) -> bool {
    occurs_at(vstd::utf8::encode_utf8(content_type), vstd::utf8::encode_utf8("image/"@), 0)
}

/// True when a content type says that the body is JSON.
pub open spec fn declares_json(content_type: Seq<char>) -> bool {
    occurs_in(vstd::utf8::encode_utf8(content_type), vstd::utf8::encode_utf8("json"@))
}

/// True when a content type says that the body is text of another kind.
pub open spec fn declares_text(content_type: Seq<char>) -> bool {
    ||| occurs_in(vstd::utf8::encode_utf8(content_type), vstd::utf8::encode_utf8("text/"@))
    ||| occurs_in(vstd::utf8::encode_utf8(content_type), vstd::utf8::encode_utf8("xml"@))
    ||| occurs_in(vstd::utf8::encode_utf8(content_type), vstd::utf8::encode_utf8("html"@))
}

/// The content type of a response: the one it names, or plain text.
pub open spec fn content_type_or_default(content_type: Option<&str>) -> Seq<char> {
    match content_type {
        Some(text) => text@,
        None => "text/plain"@,
    }
}

/// What became of an attempt to read a text as JSON and to print it
/// again.
#[derive(Clone, Debug, PartialEq, Eq)]
pub enum JsonAttempt {
    /// The text is no JSON.
    NotJson,
    /// The text is JSON, and this is how it is printed.
    Printed(String),
    /// The text is JSON, but printing it failed.
    NotPrinted,
}

/// A `JsonAttempt` with its text as a sequence of characters.
pub enum JsonAttemptView {
    /// The text is no JSON.
    NotJson,
    /// The text is JSON, and this is how it is printed.
    Printed(Seq<char>),
    /// The text is JSON, but printing it failed.
    NotPrinted,
}

impl View for JsonAttempt {
    type V = JsonAttemptView;

    open spec fn view(&self) -> JsonAttemptView {
        match self {
            JsonAttempt::NotJson => JsonAttemptView::NotJson,
            JsonAttempt::Printed(text) => JsonAttemptView::Printed(text@),
            JsonAttempt::NotPrinted => JsonAttemptView::NotPrinted,
        }
    }
}

/// The content that a text is taken for once it was tried as JSON: JSON
/// as it was printed; else the text itself, as JSON if it is JSON and
/// the response declared it so, and as plain text if not.
pub open spec fn json_content_of(
    text: Seq<char>,
    attempt: JsonAttemptView,
    declared: bool,
) -> ContentView {
    match attempt {
        JsonAttemptView::Printed(printed) => ContentView::Json(printed),
        JsonAttemptView::NotPrinted => if declared {
            ContentView::Json(text)
        } else {
            ContentView::Text(text)
        },
        JsonAttemptView::NotJson => ContentView::Text(text),
    }
}

/// True when `content` is what the body `body` of a response with the
/// content type `content_type` may be taken for. An image is kept as it
/// is; bytes that are no UTF-8 are binary; text that declares itself as
/// text stays text; and all other text is what trying it as JSON makes
/// of it.
pub open spec fn is_content_of(content_type: Seq<char>, body: Seq<u8>, content: ContentView) -> bool {
    if declares_image(content_type) {
        content == ContentView::Image(body, content_type)
    } else if !valid_utf8(body) {
        content == ContentView::Binary(body)
    } else if !declares_json(content_type) && declares_text(content_type) {
        content == ContentView::Text(vstd::utf8::decode_utf8(body))
    } else {
        exists|attempt: JsonAttemptView|
            is_attempt_on(vstd::utf8::decode_utf8(body), attempt) && content == json_content_of(
                vstd::utf8::decode_utf8(body),
                attempt,
                declares_json(content_type),
            )
    }
}

/// True when `text` can be read as one JSON document.
pub uninterp spec fn is_json(text: Seq<char>) -> bool;

/// True when `attempt` can be the outcome of trying `text` as JSON: the
/// attempt fails at reading where the text is no JSON, and nowhere else.
pub open spec fn is_attempt_on(text: Seq<char>, attempt: JsonAttemptView) -> bool {
    attempt is NotJson <==> !is_json(text)
}

/// Calls `std::str::from_utf8`: the bytes as text, if they are the
/// UTF-8 form of a text, and nothing if they are not.
#[verifier::external_body]
fn text_from_utf8(bytes: &[u8]) -> (text: Option<&str>)
    ensures
        match text {
            Some(s) => valid_utf8(bytes@) && s.spec_bytes() == bytes@,
            None => !valid_utf8(bytes@),
        },
{
    std::str::from_utf8(bytes).ok()
}

/// `serde_json::Value`: a JSON document as it was read. It is handed
/// from the reader to the printer, and nothing here looks inside it.
#[verifier::external_type_specification]
#[verifier::external_body]
pub struct ExJsonValue(serde_json::Value);

/// `serde_json::Error`: why reading or printing failed. Nothing here
/// looks inside it.
#[verifier::external_type_specification]
#[verifier::external_body]
pub struct ExJsonError(serde_json::Error);

/// Calls `serde_json::from_str` for a `serde_json::Value`. Whether the
/// text can be read depends on the text alone and has the name
/// `is_json`; nothing is claimed of the document that comes back.
#[verifier::external_body]
fn json_from_str(text: &str) -> (value: Result<serde_json::Value, serde_json::Error>)
    ensures
        value is Ok <==> is_json(text@),
{
    serde_json::from_str::<serde_json::Value>(text)
}

/// Calls `serde_json::to_string_pretty`. Nothing is claimed of what
/// comes back.
#[verifier::external_body]
fn json_to_string_pretty(value: &serde_json::Value) -> (text: Result<String, serde_json::Error>) {
    serde_json::to_string_pretty(value)
}

/// Tries to read `text` as JSON and to print it again with indentation.
fn reformat_json(text: &str) -> (attempt: JsonAttempt)
    ensures
        is_attempt_on(text@, attempt@),
{
    match json_from_str(text) {
        Ok(value) => match json_to_string_pretty(&value) {
            Ok(printed) => JsonAttempt::Printed(printed),
            Err(_) => JsonAttempt::NotPrinted,
        },
        Err(_) => JsonAttempt::NotJson,
    }
}

/// The content that `text` is taken for once it was tried as JSON;
/// `declared` tells whether the response declared its body as JSON.
pub fn json_content(text: String, attempt: JsonAttempt, declared: bool) -> (content:
    ResponseContent)
    ensures
        content@ == json_content_of(text@, attempt@, declared),
{
    match attempt {
        JsonAttempt::Printed(printed) => ResponseContent::Json(printed),
        JsonAttempt::NotPrinted => if declared {
            ResponseContent::Json(text)
        } else {
            ResponseContent::Text(text)
        },
        JsonAttempt::NotJson => ResponseContent::Text(text),
    }
}

/// Takes the body of a response for a kind of content, going by the
/// content type that the response names (plain text if it names none).
pub fn parse_response_content(content_type: Option<&str>, body_bytes: Vec<u8>) -> (content:
    ResponseContent)
    ensures
        is_content_of(content_type_or_default(content_type), body_bytes@, content@),
{
    let content_type_str = match content_type {
        Some(text) => text,
        None => "text/plain",
    };
    if starts_with(content_type_str, "image/") {
        return ResponseContent::Image(body_bytes, String::from_str(content_type_str));
    }
    let decoded = match text_from_utf8(body_bytes.as_slice()) {
        Some(text) => Some(String::from_str(text)),
        None => None,
    };
    match decoded {
        Some(text) => {
            proof {
                vstd::utf8::encode_utf8_decode_utf8(text@);
            }
            let declared = contains(content_type_str, "json");
            if !declared && (contains(content_type_str, "text/") || contains(
                content_type_str,
                "xml",
            ) || contains(content_type_str, "html")) {
                ResponseContent::Text(text)
            } else {
                let attempt = reformat_json(text.as_str());
                let content = json_content(text, attempt, declared);
                proof {
                    assert(content@ == json_content_of(
                        vstd::utf8::decode_utf8(body_bytes@),
                        attempt@,
                        declares_json(content_type_or_default(content_type)),
                    ));
                }
                content
            }
        },
        None => ResponseContent::Binary(body_bytes),
    }
}

} // verus!
