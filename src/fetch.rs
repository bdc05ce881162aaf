//! Payloads of the HTTP fetch commands offered to the user interface, and the
//! decisions taken around a request: its id, whether a body is sent, how a
//! chunk of the response becomes text, what a failed request reports.

use crate::text::same_text;
use vstd::prelude::*;
use vstd::utf8::{decode_utf8, valid_utf8};

verus! {

/// A request as the user interface describes it.
pub struct FetchOptions {
    pub url: String,
    pub method: String,
    pub body: Option<String>,
    pub headers: Option<Vec<(String, String)>>,
}

/// A complete response.
pub struct FetchResponse {
    pub status: u16,
    pub status_text: String,
    pub body: String,
}

/// The head of a streamed response.
pub struct StreamResponse {
    pub request_id: u32,
    pub status: u16,
    pub status_text: String,
    pub headers: Vec<(String, String)>,
}

/// The last event of a streamed response.
pub struct EndPayload {
    pub request_id: u32,
    pub status: u16,
}

/// One chunk of a streamed response, as text.
pub struct ChunkPayload {
    pub request_id: u32,
    pub chunk: String,
}

/// The status reported for a request that could not be sent.
pub const NETWORK_ERROR_STATUS: u16 = 599;

/// The status of the end event that follows an error message.
pub const ERROR_END_STATUS: u16 = 0;

/// The id for the next streamed request; the counter wraps around.
pub fn next_request_id(counter: &mut u32) -> (r: u32)
    ensures
        r == *old(counter),
        *final(counter) == (if *old(counter) == u32::MAX {
            0
        } else {
            (*old(counter) + 1) as u32
        }),
{
    let r = *counter;
    *counter = if r == u32::MAX {
        0
    } else {
        r + 1
    };
    r
}

/// Whether a streamed request carries its body: only for `POST`, `PUT` and
/// `PATCH`, and only when the body is not empty.
pub fn sends_body(method: &str, body_len: usize) -> (r: bool)
    ensures
        r == ((method@ == "POST"@ || method@ == "PUT"@ || method@ == "PATCH"@) && body_len > 0),
{
    body_len > 0 && (same_text(method, "POST") || same_text(method, "PUT") || same_text(
        method,
        "PATCH",
    ))
}

/// The head reported when a streamed request could not be sent.
pub fn network_error_response(request_id: u32) -> (r: StreamResponse)
    ensures
        r.request_id == request_id,
        r.status == NETWORK_ERROR_STATUS,
        r.status_text@ == "Network Error"@,
        r.headers@.len() == 0,
{
    StreamResponse {
        request_id,
        status: NETWORK_ERROR_STATUS,
        status_text: "Network Error".to_string(),
        headers: Vec::new(),
    }
}

/// The head of a streamed response that was received.
pub fn received_response(request_id: u32, status: u16, headers: Vec<(String, String)>) -> (r:
    StreamResponse)
    ensures
        r.request_id == request_id,
        r.status == status,
        r.status_text@ == "OK"@,
        r.headers == headers,
{
    StreamResponse { request_id, status, status_text: "OK".to_string(), headers }
}

/// The two events that report a failed request: the message as a chunk,
/// then an end event with status 0.
pub fn error_events(request_id: u32, message: String) -> (r: (ChunkPayload, EndPayload))
    ensures
        r.0.request_id == request_id,
        r.0.chunk == message,
        r.1.request_id == request_id,
        r.1.status == ERROR_END_STATUS,
{
    (ChunkPayload { request_id, chunk: message }, EndPayload { request_id, status: ERROR_END_STATUS })
}

/// The end event of a streamed response.
pub fn end_payload(request_id: u32, status: u16) -> (r: EndPayload)
    ensures
        r.request_id == request_id,
        r.status == status,
{
    EndPayload { request_id, status }
}

/// A complete response; a status without a standard reason phrase gets an
/// empty status text.
pub fn fetch_response(status: u16, reason: Option<&str>, body: String) -> (r: FetchResponse)
    ensures
        r.status == status,
        r.status_text@ == (match reason {
            Some(t) => t@,
            None => Seq::<char>::empty(),
        }),
        r.body == body,
{
    let status_text = match reason {
        Some(t) => t.to_string(),
        None => String::new(),
    };
    FetchResponse { status, status_text, body }
}

/// What `base64::encode` returns for the bytes: standard alphabet, padded.
pub uninterp spec fn base64_standard(b: Seq<u8>) -> Seq<char>;

/// Relies on `std::str::from_utf8`: it accepts exactly the valid UTF-8
/// byte sequences and decodes them.
#[verifier::external_body]
fn utf8_text(b: &[u8]) -> (r: Option<String>)
    ensures
        r is Some <==> valid_utf8(b@),
        r matches Some(s) ==> s@ == decode_utf8(b@),
{
    std::str::from_utf8(b).ok().map(|s| s.to_string())
}

/// Relies on `base64::encode`: standard alphabet with padding, four
/// characters for each started group of three bytes.
#[verifier::external_body]
fn base64_text(b: &[u8]) -> (r: String)
    ensures
        r@ == base64_standard(b@),
        r@.len() == 4 * ((b@.len() + 2) / 3),
{
    #[allow(deprecated)]
    base64::encode(b)
}

/// The text of a chunk: its UTF-8 text when it is valid UTF-8, else its
/// base64 encoding.
pub fn chunk_text(b: &[u8]) -> (r: String)
    ensures
        valid_utf8(b@) ==> r@ == decode_utf8(b@),
        !valid_utf8(b@) ==> r@ == base64_standard(b@),
{
    match utf8_text(b) {
        Some(s) => s,
        None => base64_text(b),
    }
}

/// A chunk event of a streamed response.
pub fn chunk_payload(request_id: u32, b: &[u8]) -> (r: ChunkPayload)
    ensures
        r.request_id == request_id,
        valid_utf8(b@) ==> r.chunk@ == decode_utf8(b@),
        !valid_utf8(b@) ==> r.chunk@ == base64_standard(b@),
{
    ChunkPayload { request_id, chunk: chunk_text(b) }
}

} // verus!
