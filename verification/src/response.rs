use vstd::prelude::*;

verus! {

/// The body of an HTTP response: plain text for acknowledgements and
/// errors, raw bytes for a served file.
pub enum HttpBody {
    Text(String),
    Bytes(Vec<u8>),
}

impl HttpBody {
    /// The body is text whose characters are exactly `s`.
    pub open spec fn is_text_eq(&self, s: Seq<char>) -> bool {
        match self {
            HttpBody::Text(t) => t@ == s,
            HttpBody::Bytes(_) => false,
        }
    }

    /// The body is raw bytes equal to `b`.
    pub open spec fn is_bytes_eq(&self, b: Seq<u8>) -> bool {
        match self {
            HttpBody::Bytes(v) => v@ == b,
            HttpBody::Text(_) => false,
        }
    }
}

/// A complete HTTP response: a status code and a body.
pub struct HttpResponse {
    pub status: u16,
    pub body: HttpBody,
}

/// The failures that routing or a handler can surface, each of which the
/// server must flatten into exactly one plain-text response.
#[derive(Clone, Copy, PartialEq, Eq, Structural, Debug)]
pub enum RejectionKind {
    /// No route matched the request.
    NotFound,
    /// The multipart body exceeded the configured maximum size.
    PayloadTooLarge,
    /// Any other internal failure; its detail is never disclosed.
    Other,
}

/// Maps every rejection to its response: 404 "Not Found" for a routing
/// miss, 400 "Payload too large" for an oversized body, and
/// 500 "Internal Server Error" for everything else. The mapping is
/// exhaustive: no failure propagates past it.
pub fn handle_rejection(kind: &RejectionKind) -> (r: HttpResponse)
    ensures
        kind is NotFound ==> r.status == 404 && r.body.is_text_eq("Not Found"@),
        kind is PayloadTooLarge ==> r.status == 400 && r.body.is_text_eq("Payload too large"@),
        kind is Other ==> r.status == 500 && r.body.is_text_eq("Internal Server Error"@),
{
    let (code, message): (u16, String) = match kind {
        RejectionKind::NotFound => (404, "Not Found".to_owned()),
        RejectionKind::PayloadTooLarge => (400, "Payload too large".to_owned()),
        RejectionKind::Other => (500, "Internal Server Error".to_owned()),
    };
    HttpResponse { status: code, body: HttpBody::Text(message) }
}

/// The response to an upload request of `total_size` bytes: acceptance is
/// decided by the size cap alone, never by the outcome of any part's
/// write. Within the cap the client receives 200 "Upload successful!";
/// over it, the payload rejection's 400 "Payload too large".
pub fn upload_outcome(total_size: u64) -> (r: HttpResponse)
    ensures
        total_size <= crate::MAX_UPLOAD_BYTES ==> r.status == 200 && r.body.is_text_eq(
            "Upload successful!"@,
        ),
        total_size > crate::MAX_UPLOAD_BYTES ==> r.status == 400 && r.body.is_text_eq(
            "Payload too large"@,
        ),
{
    if crate::within_upload_limit(total_size) {
        HttpResponse { status: 200, body: HttpBody::Text("Upload successful!".to_owned()) }
    } else {
        handle_rejection(&RejectionKind::PayloadTooLarge)
    }
}

/// The response to a download request once the filesystem has been
/// consulted: the file's exact bytes under 200 when it was found, and the
/// routing miss's 404 "Not Found" when it was not.
pub fn file_response(found: Option<Vec<u8>>) -> (r: HttpResponse)
    ensures
        match found {
            Some(bytes) => r.status == 200 && r.body.is_bytes_eq(bytes@),
            None => r.status == 404 && r.body.is_text_eq("Not Found"@),
        },
{
    match found {
        Some(bytes) => HttpResponse { status: 200, body: HttpBody::Bytes(bytes) },
        None => handle_rejection(&RejectionKind::NotFound),
    }
}

} // verus!
