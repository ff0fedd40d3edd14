use crate::http_types::{header_of, ParseOutcome, ParseOutcomeView, RawRequest};
use sha1::{Digest, Sha1};
use vstd::prelude::*;

verus! {

/// What `httparse` makes of the bytes of a request head, with room for
/// thirty headers.
pub uninterp spec fn httparse_outcome(bytes: Seq<u8>) -> ParseOutcomeView;

/// The normal form that the `http` crate gives a header name, if it takes
/// the name at all.
pub uninterp spec fn header_name_normal(name: Seq<u8>) -> Option<Seq<u8>>;

/// A request target as the `http` crate writes it out after parsing it, if
/// it parses.
pub uninterp spec fn uri_display(target: Seq<u8>) -> Option<Seq<u8>>;

/// The reason phrase that the `http` crate knows for a status code.
pub uninterp spec fn reason_phrase(code: u16) -> Option<Seq<u8>>;

/// The bytes that a text in standard base64 stands for, if it is one.
pub uninterp spec fn base64_decoded(text: Seq<u8>) -> Option<Seq<u8>>;

/// The standard base64 text, padded, for a sequence of bytes.
pub uninterp spec fn base64_encoded(bytes: Seq<u8>) -> Seq<u8>;

/// The SHA-1 digest of a sequence of bytes.
pub uninterp spec fn sha1_of(bytes: Seq<u8>) -> Seq<u8>;

/// The HTTP date, in the fixed-length format, of a moment given in seconds
/// since the start of 1970.
pub uninterp spec fn http_date(unix_seconds: u64) -> Seq<u8>;

/// The text under a key of the JSON object that the bytes spell, if they
/// spell an object and it holds a text there.
pub uninterp spec fn json_text_field(json: Seq<u8>, key: Seq<char>) -> Option<Seq<char>>;

/// The first moment that `httpdate` refuses to format: the start of the
/// year 10000.
pub const HTTP_DATE_LIMIT: u64 = 253402300800;

/// Whether the `http` crate takes a byte in a header value: anything from
/// the space on but DEL, and the tab.
pub open spec fn is_header_value_byte(byte: u8) -> bool {
    byte >= 32 && byte != 127 || byte == 9
}

/// Whether the `http` crate counts a byte as visible ASCII: from the space
/// up to the tilde, and the tab.
pub open spec fn is_visible_ascii(byte: u8) -> bool {
    byte >= 32 && byte < 127 || byte == 9
}

/// The text whose characters are the given ASCII bytes.
pub open spec fn ascii_text(bytes: Seq<u8>) -> Seq<char> {
    Seq::new(bytes.len(), |i: int| bytes[i] as char)
}

/// `httparse::Request::parse`, on a request with room for thirty headers.
/// The result is the parser's verdict and, for a whole head, the parts it
/// found, copied out as they stand.
#[verifier::external_body]
pub(crate) fn parse_request_head(bytes: &[u8]) -> (outcome: ParseOutcome)
    ensures
        outcome@ == httparse_outcome(bytes@),
{
    let mut headers = [httparse::EMPTY_HEADER;30];
    let mut request = httparse::Request::new(&mut headers);
    match request.parse(bytes) {
        Ok(httparse::Status::Complete(_)) => ParseOutcome::Complete(RawRequest {
            method: request.method.map(|m| m.as_bytes().to_vec()),
            path: request.path.map(|p| p.as_bytes().to_vec()),
            version: request.version,
            headers: request.headers.iter().map(|h| header_of(h.name.as_bytes(), h.value)).collect(),
        }),
        Ok(httparse::Status::Partial) => ParseOutcome::Partial,
        Err(_) => ParseOutcome::Invalid,
    }
}

/// `http::header::HeaderName::from_bytes`: the name in the crate's normal
/// form, or nothing where the crate refuses it.
#[verifier::external_body]
pub(crate) fn normal_header_name(name: &[u8]) -> (normal: Option<Vec<u8>>)
    ensures
        crate::http_types::bytes_view(normal) == header_name_normal(name@),
{
    http::header::HeaderName::from_bytes(name).ok().map(|n| n.as_str().as_bytes().to_vec())
}

/// `http::header::HeaderValue::from_bytes`: whether the crate takes the
/// bytes as a header value, which it does when it takes each of them.
#[verifier::external_body]
pub(crate) fn header_value_accepted(value: &[u8]) -> (accepted: bool)
    ensures
        accepted == (forall|i: int| 0 <= i < value@.len() ==> is_header_value_byte(value@[i])),
{
    http::header::HeaderValue::from_bytes(value).is_ok()
}

/// `http::header::HeaderValue::to_str`: a header value as text, which the
/// crate gives when every byte is visible ASCII.
#[verifier::external_body]
pub(crate) fn header_value_text(value: &[u8]) -> (text: Option<String>)
    ensures
        text is Some <==> (forall|i: int| 0 <= i < value@.len() ==> is_visible_ascii(value@[i])),
        text is Some ==> text->Some_0@ == ascii_text(value@),
{
    let header = http::header::HeaderValue::from_bytes(value).ok()?;
    header.to_str().ok().map(|t| t.to_owned())
}

/// `http::Uri::try_from` and the crate's way of writing a `Uri` out again.
#[verifier::external_body]
pub(crate) fn request_target_text(target: &[u8]) -> (text: Option<Vec<u8>>)
    ensures
        crate::http_types::bytes_view(text) == uri_display(target@),
{
    http::Uri::try_from(target).ok().map(|uri| uri.to_string().into_bytes())
}

/// `http::StatusCode::canonical_reason`, for the status code with the given
/// number. The crate has no status code below 100 or above 999, and calls
/// 101 "Switching Protocols" and 400 "Bad Request".
#[verifier::external_body]
pub(crate) fn canonical_reason(code: u16) -> (reason: Option<Vec<u8>>)
    ensures
        crate::http_types::bytes_view(reason) == reason_phrase(code),
        code < 100 || code >= 1000 ==> reason is None,
        code == 101 ==> reason is Some && reason->Some_0@ == crate::text::ascii(
            "Switching Protocols"@,
        ),
        code == 400 ==> reason is Some && reason->Some_0@ == crate::text::ascii("Bad Request"@),
{
    http::StatusCode::from_u16(code).ok()?.canonical_reason().map(|r| r.as_bytes().to_vec())
}

/// `base64::decode`: the bytes that a standard base64 text stands for, or
/// nothing where it is no such text.
#[verifier::external_body]
pub(crate) fn base64_decode(text: &[u8]) -> (bytes: Option<Vec<u8>>)
    requires
        text@.len() + 3 <= usize::MAX,
    ensures
        crate::http_types::bytes_view(bytes) == base64_decoded(text@),
{
    base64::decode(text).ok()
}

/// `base64::encode`: the standard base64 text for the bytes.
#[verifier::external_body]
pub(crate) fn base64_encode(bytes: &[u8]) -> (text: Vec<u8>)
    requires
        bytes@.len() <= 0x1000_0000,
    ensures
        text@ == base64_encoded(bytes@),
{
    base64::encode(bytes).into_bytes()
}

/// `sha1::Sha1`, fed the bytes once: their digest, which is twenty bytes
/// long.
#[verifier::external_body]
pub(crate) fn sha1_digest(bytes: &[u8]) -> (digest: Vec<u8>)
    ensures
        digest@ == sha1_of(bytes@),
        digest@.len() == 20,
{
    let mut hasher = Sha1::new();
    hasher.update(bytes);
    hasher.finalize().to_vec()
}

/// `httpdate::fmt_http_date`, for the moment that lies the given number of
/// seconds after the start of 1970. The crate refuses moments from the year
/// 10000 on.
#[verifier::external_body]
pub(crate) fn format_http_date(unix_seconds: u64) -> (date: Vec<u8>)
    requires
        unix_seconds < HTTP_DATE_LIMIT,
    ensures
        date@ == http_date(unix_seconds),
{
    let moment = std::time::UNIX_EPOCH + std::time::Duration::from_secs(unix_seconds);
    httpdate::fmt_http_date(moment).into_bytes()
}

/// `serde_json::from_slice` into a `serde_json::Value`, then the text that
/// the value holds under `key`.
#[verifier::external_body]
pub(crate) fn json_text(json: &[u8], key: &str) -> (text: Option<String>)
    ensures
        match text {
            Some(t) => json_text_field(json@, key@) == Some(t@),
            None => json_text_field(json@, key@) is None,
        },
{
    let value: serde_json::Value = serde_json::from_slice(json).ok()?;
    value.get(key)?.as_str().map(|t| t.to_owned())
}

/// `std::str::from_utf8`: the text that the bytes encode, where they are
/// valid UTF-8.
#[verifier::external_body]
pub(crate) fn utf8_text(bytes: &[u8]) -> (text: Option<String>)
    ensures
        text is Some <==> vstd::utf8::valid_utf8(bytes@),
        text is Some ==> text->Some_0@ == vstd::utf8::decode_utf8(bytes@),
{
    std::str::from_utf8(bytes).ok().map(|t| t.to_owned())
}

/// `rand::random`, for a `u16`. Nothing is known of the number.
#[verifier::external_body]
pub(crate) fn random_u16() -> (number: u16) {
    rand::random::<u16>()
}

} // verus!
