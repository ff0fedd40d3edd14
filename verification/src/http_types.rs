use vstd::prelude::*;

verus! {

/// One header line: a name and a value, both as bytes.
#[derive(Debug)]
pub struct Header {
    pub name: Vec<u8>,
    pub value: Vec<u8>,
}

/// A header with a copy of the given name and value.
pub fn header_of(name: &[u8], value: &[u8]) -> (header: Header)
    ensures
        header.name@ == name@,
        header.value@ == value@,
{
    Header {
        name: crate::text::copy_range(name, 0, name.len()),
        value: crate::text::copy_range(value, 0, value.len()),
    }
}

/// A header line as a mathematical value: the name, then the value.
pub type HeaderLine = (Seq<u8>, Seq<u8>);

/// The header lines of a list of headers, in order.
pub open spec fn header_lines(headers: Seq<Header>) -> Seq<HeaderLine> {
    Seq::new(headers.len(), |i: int| (headers[i].name@, headers[i].value@))
}

/// A request head as the parser hands it over: nothing checked beyond its
/// grammar, the header names as the client wrote them.
#[derive(Debug)]
pub struct RawRequest {
    pub method: Option<Vec<u8>>,
    pub path: Option<Vec<u8>>,
    pub version: Option<u8>,
    pub headers: Vec<Header>,
}

pub struct RawRequestView {
    pub method: Option<Seq<u8>>,
    pub path: Option<Seq<u8>>,
    pub version: Option<u8>,
    pub headers: Seq<HeaderLine>,
}

/// The bytes of an optional byte string.
pub open spec fn bytes_view(bytes: Option<Vec<u8>>) -> Option<Seq<u8>> {
    match bytes {
        Some(b) => Some(b@),
        None => None,
    }
}

impl View for RawRequest {
    type V = RawRequestView;

    open spec fn view(&self) -> RawRequestView {
        RawRequestView {
            method: bytes_view(self.method),
            path: bytes_view(self.path),
            version: self.version,
            headers: header_lines(self.headers@),
        }
    }
}

/// What parsing the first bytes of a connection came to.
#[derive(Debug)]
pub enum ParseOutcome {
    /// A whole request head was read.
    Complete(RawRequest),
    /// The bytes end before the request head does.
    Partial,
    /// The bytes are no request head.
    Invalid,
}

pub enum ParseOutcomeView {
    Complete(RawRequestView),
    Partial,
    Invalid,
}

impl View for ParseOutcome {
    type V = ParseOutcomeView;

    open spec fn view(&self) -> ParseOutcomeView {
        match self {
            ParseOutcome::Complete(raw) => ParseOutcomeView::Complete(raw@),
            ParseOutcome::Partial => ParseOutcomeView::Partial,
            ParseOutcome::Invalid => ParseOutcomeView::Invalid,
        }
    }
}

/// A request that has a method, a target and well-formed headers. Header
/// names are in their normal form, lower case.
#[derive(Debug)]
pub struct HttpRequest {
    pub method: Vec<u8>,
    pub uri: Vec<u8>,
    pub headers: Vec<Header>,
}

pub struct RequestView {
    pub method: Seq<u8>,
    pub uri: Seq<u8>,
    pub headers: Seq<HeaderLine>,
}

impl View for HttpRequest {
    type V = RequestView;

    open spec fn view(&self) -> RequestView {
        RequestView { method: self.method@, uri: self.uri@, headers: header_lines(self.headers@) }
    }
}

/// A response: a status code and the headers in the order in which they are
/// sent.
#[derive(Debug)]
pub struct HttpResponse {
    pub status: u16,
    pub headers: Vec<Header>,
}

pub struct ResponseView {
    pub status: u16,
    pub headers: Seq<HeaderLine>,
}

impl View for HttpResponse {
    type V = ResponseView;

    open spec fn view(&self) -> ResponseView {
        ResponseView { status: self.status, headers: header_lines(self.headers@) }
    }
}

} // verus!
