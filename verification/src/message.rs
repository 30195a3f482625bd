//! Messages: what a decoded body is, and the documents that are sent.

use crate::json::{
    clone_option, json_parse, lemma_insert_get, number_of, option_view, Json, JsonView,
};
use vstd::prelude::*;
use vstd::string::StringExecFns;

verus! {

/// The error that a response reports.
#[derive(Debug, PartialEq, Eq)]
pub struct LspResponseError {
    code: i32,
    message: String,
    data: Option<Json>,
}

/// The mathematical value of a [`LspResponseError`].
pub ghost struct LspResponseErrorView {
    pub code: i32,
    pub message: Seq<char>,
    pub data: Option<JsonView>,
}

impl View for LspResponseError {
    type V = LspResponseErrorView;

    closed spec fn view(&self) -> LspResponseErrorView {
        LspResponseErrorView {
            code: self.code,
            message: self.message@,
            data: option_view(self.data),
        }
    }
}

impl LspResponseError {
    /// The error with this code, message and data.
    pub fn new(code: i32, message: String, data: Option<Json>) -> (r: LspResponseError)
        ensures
            r@ == (LspResponseErrorView { code, message: message@, data: option_view(data) }),
    {
        LspResponseError { code, message, data }
    }

    /// The code of the error.
    pub fn code(&self) -> (r: i32)
        ensures
            r == self@.code,
    {
        self.code
    }

    /// The message of the error.
    pub fn message(&self) -> (r: &str)
        ensures
            r@ == self@.message,
    {
        self.message.as_str()
    }

    /// The data of the error.
    pub fn data(&self) -> (r: &Option<Json>)
        ensures
            option_view(*r) == self@.data,
    {
        &self.data
    }
}

impl Clone for LspResponseError {
    fn clone(&self) -> (r: Self)
        ensures
            r@ == self@,
    {
        LspResponseError {
            code: self.code,
            message: self.message.clone(),
            data: clone_option(&self.data),
        }
    }
}

/// The value of an optional error.
pub open spec fn error_view(error: Option<LspResponseError>) -> Option<LspResponseErrorView> {
    match error {
        Some(e) => Some(e@),
        None => None,
    }
}

/// A copy of an optional error.
pub fn clone_error(error: &Option<LspResponseError>) -> (r: Option<LspResponseError>)
    ensures
        error_view(r) == error_view(*error),
{
    match error {
        Some(e) => Some(e.clone()),
        None => None,
    }
}

/// One message of the protocol.
#[derive(Debug, PartialEq, Eq)]
pub enum LspMessage {
    /// A method and its parameters.
    Notification(String, Option<Json>),
    /// An id, a method and its parameters.
    Request(u64, String, Option<Json>),
    /// The id of the request that is answered, the result and the error.
    Response(u64, Option<Json>, Option<LspResponseError>),
}

/// The mathematical value of a [`LspMessage`].
pub ghost enum LspMessageView {
    Notification(Seq<char>, Option<JsonView>),
    Request(u64, Seq<char>, Option<JsonView>),
    Response(u64, Option<JsonView>, Option<LspResponseErrorView>),
}

impl View for LspMessage {
    type V = LspMessageView;

    open spec fn view(&self) -> LspMessageView {
        match self {
            LspMessage::Notification(method, params) => LspMessageView::Notification(
                method@,
                option_view(*params),
            ),
            LspMessage::Request(id, method, params) => LspMessageView::Request(
                *id,
                method@,
                option_view(*params),
            ),
            LspMessage::Response(id, result, error) => LspMessageView::Response(
                *id,
                option_view(*result),
                error_view(*error),
            ),
        }
    }
}

impl Clone for LspMessage {
    fn clone(&self) -> (r: Self)
        ensures
            r@ == self@,
    {
        match self {
            LspMessage::Notification(method, params) => LspMessage::Notification(
                method.clone(),
                clone_option(params),
            ),
            LspMessage::Request(id, method, params) => LspMessage::Request(
                *id,
                method.clone(),
                clone_option(params),
            ),
            LspMessage::Response(id, result, error) => LspMessage::Response(
                *id,
                clone_option(result),
                clone_error(error),
            ),
        }
    }
}

/// Why a body is no message.
#[derive(Clone, Copy, Debug, PartialEq, Eq)]
pub enum DecodeError {
    /// The body is not the text of a JSON document.
    InvalidJson,
    /// The document is not an object.
    NotAnObject,
    /// The id is not an unsigned integer of 64 bits.
    InvalidId,
    /// The method is not a string.
    InvalidMethod,
    /// The object has neither an id nor a method.
    MissingMethod,
    /// The error of a response is not an object with an integer code of 32
    /// bits and a string message.
    InvalidError,
}

/// The error that the document `doc` describes: an object with a `code`
/// that is an integer of 32 bits, a `message` that is a string and,
/// optionally, `data`, where `null` counts as none.
pub open spec fn response_error_of(doc: JsonView) -> Option<LspResponseErrorView> {
    match error_code_of(doc) {
        Some(code) => match error_message_of(doc) {
            Some(message) => Some(
                LspResponseErrorView {
                    code,
                    message,
                    data: match doc.get("data"@) {
                        Some(data) => if data == JsonView::Null {
                            None
                        } else {
                            Some(data)
                        },
                        None => None,
                    },
                },
            ),
            None => None,
        },
        None => None,
    }
}

/// The code of the error that `doc` describes.
pub open spec fn error_code_of(doc: JsonView) -> Option<i32> {
    match doc.get("code"@) {
        Some(code) => match code.as_i64() {
            Some(c) => if i32::MIN <= c <= i32::MAX {
                Some(c as i32)
            } else {
                None
            },
            None => None,
        },
        None => None,
    }
}

/// The message of the error that `doc` describes.
pub open spec fn error_message_of(doc: JsonView) -> Option<Seq<char>> {
    match doc.get("message"@) {
        Some(message) => message.as_str(),
        None => None,
    }
}

/// The message that the document `doc` is: a request where it has an id and
/// a method, a response where it has an id alone, a notification where it
/// has a method alone.
pub open spec fn classify_of(doc: JsonView) -> Result<LspMessageView, DecodeError> {
    if !(doc is Object) {
        Err(DecodeError::NotAnObject)
    } else if doc.has("id"@) && doc.has("method"@) {
        match doc.get("id"@)->0.as_u64() {
            Some(id) => match doc.get("method"@)->0.as_str() {
                Some(method) => Ok(LspMessageView::Request(id, method, doc.get("params"@))),
                None => Err(DecodeError::InvalidMethod),
            },
            None => Err(DecodeError::InvalidId),
        }
    } else if doc.has("id"@) {
        match doc.get("id"@)->0.as_u64() {
            Some(id) => match doc.get("error"@) {
                Some(error) => match response_error_of(error) {
                    Some(e) => Ok(LspMessageView::Response(id, doc.get("result"@), Some(e))),
                    None => Err(DecodeError::InvalidError),
                },
                None => Ok(LspMessageView::Response(id, doc.get("result"@), None)),
            },
            None => Err(DecodeError::InvalidId),
        }
    } else if doc.has("method"@) {
        match doc.get("method"@)->0.as_str() {
            Some(method) => Ok(LspMessageView::Notification(method, doc.get("params"@))),
            None => Err(DecodeError::InvalidMethod),
        }
    } else {
        Err(DecodeError::MissingMethod)
    }
}

/// The message that the bytes `body` are.
pub open spec fn message_of(body: Seq<u8>) -> Result<LspMessageView, DecodeError> {
    match json_parse(body) {
        Some(doc) => classify_of(doc),
        None => Err(DecodeError::InvalidJson),
    }
}

/// The value of a message or the error in its place.
pub open spec fn result_view(r: Result<LspMessage, DecodeError>) -> Result<
    LspMessageView,
    DecodeError,
> {
    match r {
        Ok(message) => Ok(message@),
        Err(e) => Err(e),
    }
}

/// Reads the error of a response from a document.
pub fn response_error(doc: &Json) -> (r: Option<LspResponseError>)
    ensures
        error_view(r) == response_error_of(doc@),
{
    let code = match doc.get("code") {
        Some(code) => match code.as_i64() {
            Some(c) => if -0x8000_0000 <= c && c <= 0x7fff_ffff {
                c as i32
            } else {
                return None;
            },
            None => {
                return None;
            },
        },
        None => {
            return None;
        },
    };
    let message = match doc.get("message") {
        Some(message) => match message.as_str() {
            Some(text) => text.to_owned(),
            None => {
                return None;
            },
        },
        None => {
            return None;
        },
    };
    let data = match doc.get("data") {
        Some(data) => if data.is_null() {
            None
        } else {
            Some(data)
        },
        None => None,
    };
    Some(LspResponseError { code, message, data })
}

/// Says which message a document is.
pub fn classify(doc: &Json) -> (r: Result<LspMessage, DecodeError>)
    ensures
        result_view(r) == classify_of(doc@),
{
    if !doc.is_object() {
        return Err(DecodeError::NotAnObject);
    }
    match doc.get("id") {
        Some(id) => {
            let id = match id.as_u64() {
                Some(id) => id,
                None => {
                    return Err(DecodeError::InvalidId);
                },
            };
            match doc.get("method") {
                Some(method) => match method.as_str() {
                    Some(method) => Ok(
                        LspMessage::Request(id, method.to_owned(), doc.get("params")),
                    ),
                    None => Err(DecodeError::InvalidMethod),
                },
                None => match doc.get("error") {
                    Some(error) => match response_error(&error) {
                        Some(e) => Ok(LspMessage::Response(id, doc.get("result"), Some(e))),
                        None => Err(DecodeError::InvalidError),
                    },
                    None => Ok(LspMessage::Response(id, doc.get("result"), None)),
                },
            }
        },
        None => match doc.get("method") {
            Some(method) => match method.as_str() {
                Some(method) => Ok(
                    LspMessage::Notification(method.to_owned(), doc.get("params")),
                ),
                None => Err(DecodeError::InvalidMethod),
            },
            None => Err(DecodeError::MissingMethod),
        },
    }
}

impl LspMessage {
    /// Reads a message from the body of a frame.
    pub fn from(s: &[u8]) -> (r: Result<LspMessage, DecodeError>)
        ensures
            result_view(r) == message_of(s@),
    {
        match Json::parse(s) {
            Some(doc) => classify(&doc),
            None => Err(DecodeError::InvalidJson),
        }
    }
}

/// The document of a request: the parameters are left out where they are
/// `null`.
pub open spec fn request_envelope(id: u64, method: Seq<char>, params: JsonView) -> JsonView {
    let doc = JsonView::empty_object().insert("jsonrpc"@, JsonView::String("2.0"@)).insert(
        "id"@,
        JsonView::Number(number_of(id)),
    ).insert("method"@, JsonView::String(method));
    if params == JsonView::Null {
        doc
    } else {
        doc.insert("params"@, params)
    }
}

/// The document of a notification.
pub open spec fn notification_envelope(method: Seq<char>, params: JsonView) -> JsonView {
    JsonView::empty_object().insert("jsonrpc"@, JsonView::String("2.0"@)).insert(
        "method"@,
        JsonView::String(method),
    ).insert("params"@, params)
}

/// The document of a response.
pub open spec fn response_envelope(id: u64, result: JsonView) -> JsonView {
    JsonView::empty_object().insert("jsonrpc"@, JsonView::String("2.0"@)).insert(
        "id"@,
        JsonView::Number(number_of(id)),
    ).insert("result"@, result)
}

/// The names of the members of a message differ from one another.
proof fn lemma_member_names()
    ensures
        "jsonrpc"@ != "id"@,
        "jsonrpc"@ != "method"@,
        "jsonrpc"@ != "params"@,
        "jsonrpc"@ != "result"@,
        "jsonrpc"@ != "error"@,
        "id"@ != "method"@,
        "id"@ != "params"@,
        "id"@ != "result"@,
        "id"@ != "error"@,
        "method"@ != "params"@,
        "method"@ != "result"@,
        "method"@ != "error"@,
        "params"@ != "result"@,
        "params"@ != "error"@,
        "result"@ != "error"@,
{
    reveal_strlit("jsonrpc");
    reveal_strlit("id");
    reveal_strlit("method");
    reveal_strlit("params");
    reveal_strlit("result");
    reveal_strlit("error");
    assert("jsonrpc"@.len() == 7);
    assert("id"@.len() == 2);
    assert("error"@.len() == 5);
    assert("method"@.len() == 6);
    assert("method"@[0] != "params"@[0]);
    assert("method"@[0] != "result"@[0]);
    assert("params"@[0] != "result"@[0]);
}

/// What the members of a document that is built by three or four settings
/// of members are.
proof fn lemma_built(
    k1: Seq<char>,
    v1: JsonView,
    k2: Seq<char>,
    v2: JsonView,
    k3: Seq<char>,
    v3: JsonView,
    other: Seq<char>,
)
    requires
        k1 != k2,
        k1 != k3,
        k2 != k3,
    ensures
        ({
            let doc = JsonView::empty_object().insert(k1, v1).insert(k2, v2).insert(k3, v3);
            &&& doc is Object
            &&& doc.get(other) == if other == k3 {
                Some(v3)
            } else if other == k2 {
                Some(v2)
            } else if other == k1 {
                Some(v1)
            } else {
                None
            }
        }),
{
    let d0 = JsonView::empty_object();
    let d1 = d0.insert(k1, v1);
    let d2 = d1.insert(k2, v2);
    lemma_insert_get(d0, k1, v1, other);
    lemma_insert_get(d1, k2, v2, other);
    lemma_insert_get(d2, k3, v3, other);
}

/// Whether the number that is written for the id `id` is read as `id`.
pub open spec fn id_reads_back(id: u64) -> bool {
    JsonView::Number(number_of(id)).as_u64() == Some(id)
}

/// A request that this client writes is read as that request: the same id
/// and method, and the parameters unless they are `null`; provided that the
/// number that is written for the id is read as the id.
pub proof fn lemma_request_read_back(id: u64, method: Seq<char>, params: JsonView)
    requires
        id_reads_back(id),
    ensures
        classify_of(request_envelope(id, method, params)) == Ok::<LspMessageView, DecodeError>(
            LspMessageView::Request(
                id,
                method,
                if params == JsonView::Null {
                    None
                } else {
                    Some(params)
                },
            ),
        ),
{
    lemma_member_names();
    let version = JsonView::String("2.0"@);
    let number = JsonView::Number(number_of(id));
    let name = JsonView::String(method);
    let base = JsonView::empty_object().insert("jsonrpc"@, version).insert("id"@, number).insert(
        "method"@,
        name,
    );
    lemma_built("jsonrpc"@, version, "id"@, number, "method"@, name, "id"@);
    lemma_built("jsonrpc"@, version, "id"@, number, "method"@, name, "method"@);
    lemma_built("jsonrpc"@, version, "id"@, number, "method"@, name, "params"@);
    if params != JsonView::Null {
        lemma_insert_get(base, "params"@, params, "id"@);
        lemma_insert_get(base, "params"@, params, "method"@);
        lemma_insert_get(base, "params"@, params, "params"@);
    }
}

/// A notification that this client would write is read as that
/// notification.
pub proof fn lemma_notification_read_back(method: Seq<char>, params: JsonView)
    ensures
        classify_of(notification_envelope(method, params)) == Ok::<LspMessageView, DecodeError>(
            LspMessageView::Notification(method, Some(params)),
        ),
{
    lemma_member_names();
    let version = JsonView::String("2.0"@);
    let name = JsonView::String(method);
    lemma_built("jsonrpc"@, version, "method"@, name, "params"@, params, "id"@);
    lemma_built("jsonrpc"@, version, "method"@, name, "params"@, params, "method"@);
    lemma_built("jsonrpc"@, version, "method"@, name, "params"@, params, "params"@);
}

/// A response that this client writes is read as a response with the same
/// id and result, and without an error; provided that the number that is
/// written for the id is read as the id.
pub proof fn lemma_response_read_back(id: u64, result: JsonView)
    requires
        id_reads_back(id),
    ensures
        classify_of(response_envelope(id, result)) == Ok::<LspMessageView, DecodeError>(
            LspMessageView::Response(id, Some(result), None),
        ),
{
    lemma_member_names();
    let version = JsonView::String("2.0"@);
    let number = JsonView::Number(number_of(id));
    lemma_built("jsonrpc"@, version, "id"@, number, "result"@, result, "id"@);
    lemma_built("jsonrpc"@, version, "id"@, number, "result"@, result, "method"@);
    lemma_built("jsonrpc"@, version, "id"@, number, "result"@, result, "result"@);
    lemma_built("jsonrpc"@, version, "id"@, number, "result"@, result, "error"@);
}

/// Builds the document of a request. It is read as that request.
pub fn request(id: u64, method: &str, params: Json) -> (r: Json)
    ensures
        r@ == request_envelope(id, method@, params@),
        id_reads_back(id),
        classify_of(r@) == Ok::<LspMessageView, DecodeError>(
            LspMessageView::Request(
                id,
                method@,
                if params@ == JsonView::Null {
                    None
                } else {
                    Some(params@)
                },
            ),
        ),
{
    let mut doc = Json::object();
    doc.insert("jsonrpc", Json::string("2.0"));
    doc.insert("id", Json::number(id));
    proof {
        lemma_request_read_back(id, method@, params@);
    }
    doc.insert("method", Json::string(method));
    if !params.is_null() {
        doc.insert("params", params);
    }
    doc
}

/// Builds the document of a notification. It is read as that notification.
pub fn notification(method: &str, params: Json) -> (r: Json)
    ensures
        r@ == notification_envelope(method@, params@),
        classify_of(r@) == Ok::<LspMessageView, DecodeError>(
            LspMessageView::Notification(method@, Some(params@)),
        ),
{
    proof {
        lemma_notification_read_back(method@, params@);
    }
    let mut doc = Json::object();
    doc.insert("jsonrpc", Json::string("2.0"));
    doc.insert("method", Json::string(method));
    doc.insert("params", params);
    doc
}

/// Builds the document of a response. It is read as that response.
pub fn response(id: u64, result: Json) -> (r: Json)
    ensures
        r@ == response_envelope(id, result@),
        id_reads_back(id),
        classify_of(r@) == Ok::<LspMessageView, DecodeError>(
            LspMessageView::Response(id, Some(result@), None),
        ),
{
    let mut doc = Json::object();
    doc.insert("jsonrpc", Json::string("2.0"));
    doc.insert("id", Json::number(id));
    proof {
        lemma_response_read_back(id, result@);
    }
    doc.insert("result", result);
    doc
}

/// Why a payload could not be read in the shape that was asked for.
#[derive(Debug, PartialEq, Eq)]
pub struct DecodeFailure {
    /// What the decoder said.
    pub error: String,
    /// The payload as it was received.
    pub payload: String,
}

/// The text of the error for a message whose payload could not be read: the
/// method, what the decoder said, and the payload.
pub open spec fn decode_failure(method: Seq<char>, error: Seq<char>, payload: Seq<char>) -> Seq<
    char,
> {
    "Could not deserialize message '"@ + method + "': "@ + error + "\n\n"@ + payload
}

/// Writes the text of the error for a message whose payload could not be
/// read.
pub fn failure_text(method: &str, failure: &DecodeFailure) -> (r: String)
    ensures
        r@ == decode_failure(method@, failure.error@, failure.payload@),
{
    let mut text = "Could not deserialize message '".to_owned();
    text.append(method);
    text.append("': ");
    text.append(failure.error.as_str());
    text.append("\n\n");
    text.append(failure.payload.as_str());
    assert(text@ =~= decode_failure(method@, failure.error@, failure.payload@));
    text
}

/// The result of reading a notification, once the attempt to read its
/// parameters, where it has any, has been made. A failed attempt gives an
/// error that carries the method, what the decoder said and the payload.
pub fn notification_result<R>(method: String, decoded: Option<Result<R, DecodeFailure>>) -> (r:
    Result<(String, Option<R>), String>)
    ensures
        match decoded {
            None => r == Ok::<(String, Option<R>), String>((method, None)),
            Some(Ok(params)) => r == Ok::<(String, Option<R>), String>((method, Some(params))),
            Some(Err(failure)) => r matches Err(text) && text@ == decode_failure(
                method@,
                failure.error@,
                failure.payload@,
            ),
        },
{
    match decoded {
        None => Ok((method, None)),
        Some(Ok(params)) => Ok((method, Some(params))),
        Some(Err(failure)) => Err(failure_text(method.as_str(), &failure)),
    }
}

/// The result of reading a request, once the attempt to read its parameters,
/// where it has any, has been made. A failed attempt gives an error that
/// carries the method, what the decoder said and the payload.
pub fn request_result<R>(id: u64, method: String, decoded: Option<Result<R, DecodeFailure>>) -> (r:
    Result<(u64, String, Option<R>), String>)
    ensures
        match decoded {
            None => r == Ok::<(u64, String, Option<R>), String>((id, method, None)),
            Some(Ok(params)) => r == Ok::<(u64, String, Option<R>), String>(
                (id, method, Some(params)),
            ),
            Some(Err(failure)) => r matches Err(text) && text@ == decode_failure(
                method@,
                failure.error@,
                failure.payload@,
            ),
        },
{
    match decoded {
        None => Ok((id, method, None)),
        Some(Ok(params)) => Ok((id, method, Some(params))),
        Some(Err(failure)) => Err(failure_text(method.as_str(), &failure)),
    }
}

/// The result of reading the response to a request of the method `method`,
/// once the attempt to read its result, where it has one, has been made. A
/// failed attempt gives an error that carries the method, what the decoder
/// said and the payload.
pub fn response_result<R>(
    method: &str,
    decoded: Option<Result<R, DecodeFailure>>,
    maybe_error: Option<LspResponseError>,
) -> (r: Result<(Option<R>, Option<LspResponseError>), String>)
    ensures
        match decoded {
            None => r == Ok::<(Option<R>, Option<LspResponseError>), String>((None, maybe_error)),
            Some(Ok(result)) => r == Ok::<(Option<R>, Option<LspResponseError>), String>(
                (Some(result), maybe_error),
            ),
            Some(Err(failure)) => r matches Err(text) && text@ == decode_failure(
                method@,
                failure.error@,
                failure.payload@,
            ),
        },
{
    match decoded {
        None => Ok((None, maybe_error)),
        Some(Ok(result)) => Ok((Some(result), maybe_error)),
        Some(Err(failure)) => Err(failure_text(method, &failure)),
    }
}

} // verus!
