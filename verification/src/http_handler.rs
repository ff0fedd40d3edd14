use crate::http_types::{
    header_lines, Header, HeaderLine, HttpRequest, HttpResponse, ParseOutcome, ParseOutcomeView,
    RawRequestView, RequestView, ResponseView,
};
use crate::outside::{
    ascii_text, base64_decode, base64_decoded, base64_encode, base64_encoded, format_http_date,
    header_name_normal, header_value_accepted, header_value_text, http_date, httparse_outcome,
    is_header_value_byte, is_visible_ascii, normal_header_name, parse_request_head,
    canonical_reason, reason_phrase, request_target_text, sha1_digest, sha1_of, uri_display,
    HTTP_DATE_LIMIT,
};
use crate::text::{
    append_bytes, ascii, bytes_equal, copy_range, eq_ignore_ascii_case, literal_bytes, lowered,
    same_ignoring_case, to_ascii_lowercase, trim_range, trimmed,
};
use vstd::prelude::*;

verus! {

/// The one subprotocol that the server speaks.
pub open spec fn supported_protocol() -> Seq<u8> {
    ascii("v1.chat.cluster23.com"@)
}

/// The one request target that the server answers.
pub open spec fn allowed_path() -> Seq<u8> {
    ascii("/chat"@)
}

/// The value of the first header with the given name.
pub open spec fn header_value(headers: Seq<HeaderLine>, name: Seq<u8>) -> Option<Seq<u8>>
    decreases headers.len(),
{
    if headers.len() == 0 {
        None
    } else if headers[0].0 == name {
        Some(headers[0].1)
    } else {
        header_value(headers.skip(1), name)
    }
}

/// Whether a header with the given name is there and its value is the
/// expected one, but for the case of letters.
pub open spec fn header_matches(headers: Seq<HeaderLine>, name: Seq<u8>, expected: Seq<u8>) -> bool {
    match header_value(headers, name) {
        Some(value) => same_ignoring_case(expected, value),
        None => false,
    }
}

/// Where the first header with the given name stands.
pub fn find_header(headers: &Vec<Header>, name: &[u8]) -> (found: Option<usize>)
    ensures
        match found {
            Some(i) => i < headers@.len() && headers@[i as int].name@ == name@ && header_value(
                header_lines(headers@),
                name@,
            ) == Some(headers@[i as int].value@),
            None => header_value(header_lines(headers@), name@) is None,
        },
{
    let ghost lines = header_lines(headers@);
    let mut i: usize = 0;
    assert(lines.skip(0) =~= lines);
    while i < headers.len()
        invariant
            i <= headers@.len(),
            lines == header_lines(headers@),
            header_value(lines, name@) == header_value(lines.skip(i as int), name@),
        decreases headers@.len() - i,
    {
        if bytes_equal(headers[i].name.as_slice(), name) {
            return Some(i);
        }
        assert(lines.skip(i as int).skip(1) =~= lines.skip(i + 1));
        i += 1;
    }
    None
}

pub fn header_value_matching(headers: &Vec<Header>, header_name: &[u8], header_value_expected: &[u8]) -> (matching: bool)
    ensures
        matching == header_matches(header_lines(headers@), header_name@, header_value_expected@),
{
    match find_header(headers, header_name) {
        None => false,
        Some(i) => eq_ignore_ascii_case(header_value_expected, headers[i].value.as_slice()),
    }
}

/// Where the token that begins at `start` ends: at the next comma, or at the
/// end of the value.
pub open spec fn token_end(value: Seq<u8>, start: int) -> int
    decreases value.len() - start,
{
    if start >= value.len() || value[start] == 44 {
        start
    } else {
        token_end(value, start + 1)
    }
}

/// Whether one of the comma-separated tokens of `value` from `start` on is,
/// without the blanks around it, the supported subprotocol.
pub open spec fn offers_supported(value: Seq<u8>, start: int) -> bool
    decreases value.len() - start,
{
    let end = token_end(value, start);
    start <= end <= value.len() && (trimmed(value.subrange(start, end)) == supported_protocol() || (
    end < value.len() && offers_supported(value, end + 1)))
}

/// The end of a token lies between its start and the end of the value.
pub proof fn lemma_token_end_bounds(value: Seq<u8>, start: int)
    requires
        0 <= start <= value.len(),
    ensures
        start <= token_end(value, start) <= value.len(),
        token_end(value, start) < value.len() ==> value[token_end(value, start)] == 44,
        forall|k: int| start <= k < token_end(value, start) ==> value[k] != 44,
    decreases value.len() - start,
{
    if start < value.len() && value[start] != 44 {
        lemma_token_end_bounds(value, start + 1);
    }
}

/// Whether the client's list of subprotocols names the supported one.
pub fn offers_supported_protocol(value: &[u8]) -> (offered: bool)
    ensures
        offered == offers_supported(value@, 0),
{
    proof {
        reveal_strlit("v1.chat.cluster23.com");
    }
    let supported = literal_bytes("v1.chat.cluster23.com");
    let total: usize = value.len();
    let mut start: usize = 0;
    loop
        invariant
            total == value@.len(),
            start <= total,
            supported@ == supported_protocol(),
            offers_supported(value@, 0) == offers_supported(value@, start as int),
        decreases total - start,
    {
        let mut end: usize = start;
        while end < total && value[end] != 44
            invariant
                total == value@.len(),
                start <= end <= total,
                token_end(value@, start as int) == token_end(value@, end as int),
            decreases total - end,
        {
            end += 1;
        }
        proof {
            lemma_token_end_bounds(value@, start as int);
        }
        let (from, to) = trim_range(value, start, end);
        let token = copy_range(value, from, to);
        if bytes_equal(token.as_slice(), supported) {
            return true;
        }
        if end >= total {
            return false;
        }
        start = end + 1;
    }
}

/// Picks the subprotocol for the connection: the supported one, unless the
/// client sent a list of subprotocols without it.
pub fn select_sub_protocol(headers: &Vec<Header>) -> (selected: Result<Vec<u8>, &'static str>)
    ensures
        match selected {
            Ok(protocol) => protocol@ == supported_protocol() && protocol_acceptable(
                header_lines(headers@),
            ),
            Err(e) => !protocol_acceptable(header_lines(headers@)) && e@
                == "Not supported protocol found"@,
        },
{
    proof {
        reveal_strlit("v1.chat.cluster23.com");
        reveal_strlit("sec-websocket-protocol");
    }
    let offered = match find_header(headers, literal_bytes("sec-websocket-protocol")) {
        None => true,
        Some(i) => offers_supported_protocol(headers[i].value.as_slice()),
    };
    if offered {
        let supported = literal_bytes("v1.chat.cluster23.com");
        Ok(copy_range(supported, 0, supported.len()))
    } else {
        Err("Not supported protocol found")
    }
}

/// Whether the client asked for no subprotocol, or for a list that names
/// the supported one.
pub open spec fn protocol_acceptable(headers: Seq<HeaderLine>) -> bool {
    match header_value(headers, ascii("sec-websocket-protocol"@)) {
        Some(value) => offers_supported(value, 0),
        None => true,
    }
}

/// Whether every byte of a header value is one that a header value may
/// hold.
pub open spec fn value_well_formed(value: Seq<u8>) -> bool {
    forall|i: int| 0 <= i < value.len() ==> is_header_value_byte(value[i])
}

/// The headers of a request head, checked one after the other and brought
/// into normal form, or the complaint about the first that is malformed.
/// A header without a name is passed over.
pub open spec fn checked_headers(raw: Seq<HeaderLine>) -> Result<Seq<HeaderLine>, Seq<char>>
    decreases raw.len(),
{
    if raw.len() == 0 {
        Ok(Seq::empty())
    } else {
        match checked_headers(raw.drop_last()) {
            Err(e) => Err(e),
            Ok(checked) => {
                let (name, value) = raw.last();
                if name.len() == 0 {
                    Ok(checked)
                } else if header_name_normal(lowered(name)) is None {
                    Err("InvalidHeaderName"@)
                } else if !value_well_formed(value) {
                    Err("InvalidHeaderValue"@)
                } else {
                    Ok(checked.push((header_name_normal(lowered(name))->Some_0, value)))
                }
            },
        }
    }
}

/// A complaint about some headers is also the complaint about any longer
/// list that starts with them.
pub proof fn lemma_checked_headers_prefix(raw: Seq<HeaderLine>, n: int)
    requires
        0 <= n <= raw.len(),
        checked_headers(raw.take(n)) is Err,
    ensures
        checked_headers(raw) == checked_headers(raw.take(n)),
    decreases raw.len() - n,
{
    if n < raw.len() {
        assert(raw.take(n + 1).drop_last() =~= raw.take(n));
        lemma_checked_headers_prefix(raw, n + 1);
    } else {
        assert(raw.take(n) =~= raw);
    }
}

/// The request that a parsed request head amounts to, or the complaint about
/// it.
pub open spec fn request_of(outcome: ParseOutcomeView) -> Result<RequestView, Seq<char>> {
    match outcome {
        ParseOutcomeView::Partial => Err("Partial parsed request"@),
        ParseOutcomeView::Invalid => Err("Error while parsing http request"@),
        ParseOutcomeView::Complete(raw) => request_of_head(raw),
    }
}

/// The request that a whole request head amounts to, or the complaint about
/// it.
pub open spec fn request_of_head(raw: RawRequestView) -> Result<RequestView, Seq<char>> {
    if raw.version is None {
        Err("Http Version not found"@)
    } else if raw.method is None {
        Err("Http method not found"@)
    } else if raw.path is None {
        Err("Http request Path not found"@)
    } else if raw.version != Some(1u8) {
        Err("Only HTTP/1.1 is supported"@)
    } else if uri_display(raw.path->Some_0) is None {
        Err("InvalidUri"@)
    } else if checked_headers(raw.headers) is Err {
        Err(checked_headers(raw.headers)->Err_0)
    } else if !same_ignoring_case(lowered(raw.method->Some_0), ascii("GET"@)) {
        Err("Only HTTP GET method is allowed"@)
    } else {
        Ok(
            RequestView {
                method: lowered(raw.method->Some_0),
                uri: uri_display(raw.path->Some_0)->Some_0,
                headers: checked_headers(raw.headers)->Ok_0,
            },
        )
    }
}

/// Whether an outcome of this module is the one that the model gives.
pub open spec fn request_result_matches(
    res: Result<HttpRequest, &'static str>,
    expected: Result<RequestView, Seq<char>>,
) -> bool {
    match res {
        Ok(request) => expected == Ok::<RequestView, Seq<char>>(request@),
        Err(e) => expected == Err::<RequestView, Seq<char>>(e@),
    }
}

/// Checks the headers of a request head and brings their names into normal
/// form.
fn check_headers(raw: &Vec<Header>) -> (res: Result<Vec<Header>, &'static str>)
    ensures
        match res {
            Ok(headers) => checked_headers(header_lines(raw@)) == Ok::<Seq<HeaderLine>, Seq<char>>(
                header_lines(headers@),
            ),
            Err(e) => checked_headers(header_lines(raw@)) == Err::<Seq<HeaderLine>, Seq<char>>(e@),
        },
{
    let ghost lines = header_lines(raw@);
    let mut headers: Vec<Header> = Vec::new();
    let mut i: usize = 0;
    assert(lines.take(0) =~= Seq::<HeaderLine>::empty());
    assert(header_lines(headers@) =~= Seq::<HeaderLine>::empty());
    while i < raw.len()
        invariant
            i <= raw@.len(),
            lines == header_lines(raw@),
            checked_headers(lines.take(i as int)) == Ok::<Seq<HeaderLine>, Seq<char>>(
                header_lines(headers@),
            ),
        decreases raw@.len() - i,
    {
        proof {
            assert(lines.take(i + 1).drop_last() =~= lines.take(i as int));
            assert(lines.take(i + 1).last() == lines[i as int]);
        }
        let ghost before = header_lines(headers@);
        if raw[i].name.len() > 0 {
            let low = to_ascii_lowercase(raw[i].name.as_slice());
            let name = match normal_header_name(low.as_slice()) {
                Some(name) => name,
                None => {
                    proof {
                        lemma_checked_headers_prefix(lines, i + 1);
                    }
                    return Err("InvalidHeaderName");
                },
            };
            if !header_value_accepted(raw[i].value.as_slice()) {
                proof {
                    lemma_checked_headers_prefix(lines, i + 1);
                }
                return Err("InvalidHeaderValue");
            }
            let value = copy_range(raw[i].value.as_slice(), 0, raw[i].value.len());
            assert(value@ =~= raw@[i as int].value@);
            headers.push(Header { name, value });
            assert(header_lines(headers@) =~= before.push(
                (header_name_normal(lowered(lines[i as int].0))->Some_0, lines[i as int].1),
            ));
        }
        i += 1;
    }
    assert(lines.take(i as int) =~= lines);
    Ok(headers)
}

/// Turns a parsed request head into a request, or says what is wrong with
/// it.
pub fn request_from_parse(outcome: ParseOutcome) -> (res: Result<HttpRequest, &'static str>)
    ensures
        request_result_matches(res, request_of(outcome@)),
{
    let raw = match outcome {
        ParseOutcome::Partial => {
            return Err("Partial parsed request");
        },
        ParseOutcome::Invalid => {
            return Err("Error while parsing http request");
        },
        ParseOutcome::Complete(raw) => raw,
    };
    let version = match raw.version {
        None => {
            return Err("Http Version not found");
        },
        Some(version) => version,
    };
    let method = match &raw.method {
        None => {
            return Err("Http method not found");
        },
        Some(method) => to_ascii_lowercase(method.as_slice()),
    };
    let path = match &raw.path {
        None => {
            return Err("Http request Path not found");
        },
        Some(path) => path,
    };
    if version != 1 {
        return Err("Only HTTP/1.1 is supported");
    }
    let uri = match request_target_text(path.as_slice()) {
        None => {
            return Err("InvalidUri");
        },
        Some(uri) => uri,
    };
    let headers = match check_headers(&raw.headers) {
        Err(e) => {
            return Err(e);
        },
        Ok(headers) => headers,
    };
    proof {
        reveal_strlit("GET");
    }
    if !eq_ignore_ascii_case(method.as_slice(), literal_bytes("GET")) {
        return Err("Only HTTP GET method is allowed");
    }
    Ok(HttpRequest { method, uri, headers })
}

/// Parses the first bytes of a connection as a request head and turns it
/// into a request, or says what is wrong with it.
pub fn parse_http_request_bytes(bytes: Vec<u8>) -> (res: Result<HttpRequest, &'static str>)
    ensures
        request_result_matches(res, request_of(httparse_outcome(bytes@))),
{
    request_from_parse(parse_request_head(bytes.as_slice()))
}

/// Whether every byte of a header value is visible ASCII, so that the value
/// is a text.
pub open spec fn is_text(value: Seq<u8>) -> bool {
    forall|i: int| 0 <= i < value.len() ==> is_visible_ascii(value[i])
}

/// Whether the headers name a user: a `user-id` header whose value is a text
/// and not empty.
pub open spec fn names_user(headers: Seq<HeaderLine>) -> bool {
    match header_value(headers, ascii("user-id"@)) {
        Some(value) => value.len() > 0 && is_text(value),
        None => false,
    }
}

/// Whether a request asks, in the way this server demands, for an upgrade to
/// the WebSocket protocol on the node with the address `host`.
pub open spec fn upgradable(request: RequestView, host: Seq<u8>) -> bool {
    &&& same_ignoring_case(request.uri, allowed_path())
    &&& same_ignoring_case(request.method, ascii("GET"@))
    &&& header_value(request.headers, ascii("sec-websocket-key"@)) is Some
    &&& header_value(request.headers, ascii("sec-websocket-version"@)) is Some
    &&& protocol_acceptable(request.headers)
    &&& header_matches(request.headers, ascii("host"@), host)
    &&& header_matches(request.headers, ascii("connection"@), ascii("Upgrade"@))
    &&& header_matches(request.headers, ascii("upgrade"@), ascii("websocket"@))
    &&& header_matches(request.headers, ascii("sec-websocket-version"@), ascii("13"@))
    &&& names_user(request.headers)
}

/// The user that the headers name, if they name one.
fn user_of(headers: &Vec<Header>) -> (user: Option<String>)
    ensures
        user is Some <==> names_user(header_lines(headers@)),
        user is Some ==> user->Some_0@ == ascii_text(
            header_value(header_lines(headers@), ascii("user-id"@))->Some_0,
        ),
{
    proof {
        reveal_strlit("user-id");
    }
    match find_header(headers, literal_bytes("user-id")) {
        None => None,
        Some(i) => {
            if headers[i].value.len() == 0 {
                None
            } else {
                header_value_text(headers[i].value.as_slice())
            }
        },
    }
}

pub fn can_be_upgraded_to_websocket(request: &HttpRequest, host: &[u8]) -> (upgrade: bool)
    ensures
        upgrade == upgradable(request@, host@),
{
    proof {
        reveal_strlit("/chat");
        reveal_strlit("GET");
        reveal_strlit("sec-websocket-key");
        reveal_strlit("sec-websocket-version");
        reveal_strlit("host");
        reveal_strlit("connection");
        reveal_strlit("Upgrade");
        reveal_strlit("upgrade");
        reveal_strlit("websocket");
        reveal_strlit("13");
    }
    if !eq_ignore_ascii_case(request.uri.as_slice(), literal_bytes("/chat")) {
        return false;
    }
    if !eq_ignore_ascii_case(request.method.as_slice(), literal_bytes("GET")) {
        return false;
    }
    if find_header(&request.headers, literal_bytes("sec-websocket-key")).is_none() {
        return false;
    }
    if find_header(&request.headers, literal_bytes("sec-websocket-version")).is_none() {
        return false;
    }
    if select_sub_protocol(&request.headers).is_err() {
        return false;
    }
    if !header_value_matching(&request.headers, literal_bytes("host"), host) {
        return false;
    }
    if !header_value_matching(
        &request.headers,
        literal_bytes("connection"),
        literal_bytes("Upgrade"),
    ) {
        return false;
    }
    if !header_value_matching(
        &request.headers,
        literal_bytes("upgrade"),
        literal_bytes("websocket"),
    ) {
        return false;
    }
    if !header_value_matching(
        &request.headers,
        literal_bytes("sec-websocket-version"),
        literal_bytes("13"),
    ) {
        return false;
    }
    user_of(&request.headers).is_some()
}

/// The identifier that is appended to a client's key before it is hashed.
pub open spec fn accept_guid() -> Seq<u8> {
    ascii("258EAFA5-E914-47DA-95CA-C5AB0DC85B11"@)
}

/// The value of `Sec-WebSocket-Accept` for a client's key: the base64 text
/// of the SHA-1 digest of the key followed by the identifier.
pub open spec fn accept_key(key: Seq<u8>) -> Seq<u8> {
    base64_encoded(sha1_of(key + accept_guid()))
}

/// Whether a client's key is the base64 text of exactly sixteen bytes.
pub open spec fn key_is_sound(key: Seq<u8>) -> bool {
    &&& key.len() + 3 <= usize::MAX
    &&& base64_decoded(key) is Some
    &&& base64_decoded(key)->Some_0.len() == 16
}

/// Whether a decoded key, if the key could be decoded, has sixteen bytes.
pub open spec fn decodes_to_sixteen(decoded: Option<Seq<u8>>) -> bool {
    decoded is Some && decoded->Some_0.len() == 16
}

/// Tells whether what a key was decoded to is sixteen bytes long.
pub fn is_sixteen_bytes(decoded: &Option<Vec<u8>>) -> (sound: bool)
    ensures
        sound == decodes_to_sixteen(crate::http_types::bytes_view(*decoded)),
{
    match decoded {
        Some(bytes) => bytes.len() == 16,
        None => false,
    }
}

/// Tells whether a client's key is the base64 text of exactly sixteen bytes.
pub fn check_key(key: &[u8]) -> (sound: bool)
    ensures
        sound == key_is_sound(key@),
{
    if key.len() > usize::MAX - 3 {
        return false;
    }
    let decoded = base64_decode(key);
    is_sixteen_bytes(&decoded)
}

/// Derives the value of `Sec-WebSocket-Accept` from a client's key.
pub fn derive_accept_key(key: &[u8]) -> (accept: Vec<u8>)
    ensures
        accept@ == accept_key(key@),
{
    proof {
        reveal_strlit("258EAFA5-E914-47DA-95CA-C5AB0DC85B11");
    }
    let mut concat_key: Vec<u8> = Vec::new();
    append_bytes(&mut concat_key, key);
    append_bytes(&mut concat_key, literal_bytes("258EAFA5-E914-47DA-95CA-C5AB0DC85B11"));
    assert(concat_key@ =~= key@ + accept_guid());
    let digest = sha1_digest(concat_key.as_slice());
    base64_encode(digest.as_slice())
}

/// A header with the given name and value.
fn header(name: &'static str, value: &[u8]) -> (h: Header)
    requires
        name.is_ascii(),
    ensures
        h.name@ == ascii(name@),
        h.value@ == value@,
{
    let name_bytes = literal_bytes(name);
    let name = copy_range(name_bytes, 0, name_bytes.len());
    let value = copy_range(value, 0, value.len());
    Header { name, value }
}

/// The response that refuses an upgrade: status 400, and the one protocol
/// version that the server speaks.
pub open spec fn bad_request_response() -> ResponseView {
    ResponseView {
        status: 400,
        headers: seq![(ascii("Sec-WebSocket-Version"@), ascii("13"@))],
    }
}

/// The response that grants an upgrade, sent at the given moment: status
/// 101 and, in this order, the headers `Upgrade`, `Connection`,
/// `Sec-WebSocket-Accept`, `Server` and `Date`, and then
/// `Sec-WebSocket-Protocol` if the client asked for a subprotocol.
pub open spec fn switching_response(request: RequestView, unix_seconds: u64) -> ResponseView {
    let key = header_value(request.headers, ascii("sec-websocket-key"@))->Some_0;
    let fixed = seq![
        (ascii("Upgrade"@), ascii("websocket"@)),
        (ascii("Connection"@), ascii("upgrade"@)),
        (ascii("Sec-WebSocket-Accept"@), accept_key(key)),
        (ascii("Server"@), ascii("Cluster23"@)),
        (ascii("Date"@), http_date(unix_seconds)),
    ];
    ResponseView {
        status: 101,
        headers: if header_value(request.headers, ascii("sec-websocket-protocol"@)) is Some {
            fixed.push((ascii("Sec-WebSocket-Protocol"@), supported_protocol()))
        } else {
            fixed
        },
    }
}

pub fn create_401_response() -> (response: HttpResponse)
    ensures
        response@ == bad_request_response(),
{
    proof {
        reveal_strlit("Sec-WebSocket-Version");
        reveal_strlit("13");
    }
    let mut headers: Vec<Header> = Vec::new();
    headers.push(header("Sec-WebSocket-Version", literal_bytes("13")));
    assert(header_lines(headers@) =~= bad_request_response().headers);
    HttpResponse { status: 400, headers }
}

/// The key that the client sent, where it sent one.
pub open spec fn client_key(headers: Seq<HeaderLine>) -> Seq<u8> {
    header_value(headers, ascii("sec-websocket-key"@))->Some_0
}

/// The user that the headers name, where they name one.
pub open spec fn session_user(headers: Seq<HeaderLine>) -> Seq<char> {
    ascii_text(header_value(headers, ascii("user-id"@))->Some_0)
}

/// Whether a request is granted the upgrade: it asks for it in the way the
/// server demands, and its key is sound.
pub open spec fn grants_upgrade(request: RequestView, host: Seq<u8>) -> bool {
    upgradable(request, host) && key_is_sound(client_key(request.headers))
}

/// Answers a request for an upgrade, at the given moment: with the response
/// that grants it and the user that the session belongs to, or with the
/// reason for which it is refused.
pub fn create_websocket_response(request: HttpRequest, host: &[u8], unix_seconds: u64) -> (res:
    Result<(HttpResponse, String), &'static str>)
    requires
        unix_seconds < HTTP_DATE_LIMIT,
    ensures
        match res {
            Ok((response, user)) => {
                &&& grants_upgrade(request@, host@)
                &&& response@ == switching_response(request@, unix_seconds)
                &&& user@ == session_user(request@.headers)
            },
            Err(e) => {
                &&& !grants_upgrade(request@, host@)
                &&& !upgradable(request@, host@) ==> e@ == "Cannot be upgraded to websockets"@
                &&& upgradable(request@, host@) ==> e@ == "SEC_KEY length should be 16 bytes"@
            },
        },
{
    if !can_be_upgraded_to_websocket(&request, host) {
        return Err("Cannot be upgraded to websockets");
    }
    proof {
        reveal_strlit("sec-websocket-key");
        reveal_strlit("sec-websocket-protocol");
        reveal_strlit("Upgrade");
        reveal_strlit("websocket");
        reveal_strlit("Connection");
        reveal_strlit("upgrade");
        reveal_strlit("Sec-WebSocket-Accept");
        reveal_strlit("Server");
        reveal_strlit("Cluster23");
        reveal_strlit("Date");
        reveal_strlit("Sec-WebSocket-Protocol");
    }
    let key_at: usize = match find_header(&request.headers, literal_bytes("sec-websocket-key")) {
        Some(i) => i,
        None => {
            return Err("Cannot be upgraded to websockets");
        },
    };
    if !check_key(request.headers[key_at].value.as_slice()) {
        return Err("SEC_KEY length should be 16 bytes");
    }
    let accept = derive_accept_key(request.headers[key_at].value.as_slice());
    let date = format_http_date(unix_seconds);
    let mut headers: Vec<Header> = Vec::new();
    headers.push(header("Upgrade", literal_bytes("websocket")));
    headers.push(header("Connection", literal_bytes("upgrade")));
    headers.push(header("Sec-WebSocket-Accept", accept.as_slice()));
    headers.push(header("Server", literal_bytes("Cluster23")));
    headers.push(header("Date", date.as_slice()));
    if find_header(&request.headers, literal_bytes("sec-websocket-protocol")).is_some() {
        match select_sub_protocol(&request.headers) {
            Ok(protocol) => {
                headers.push(header("Sec-WebSocket-Protocol", protocol.as_slice()));
            },
            Err(_) => {
                return Err("Cannot be upgraded to websockets");
            },
        }
    }
    let user = match user_of(&request.headers) {
        Some(user) => user,
        None => {
            return Err("Cannot be upgraded to websockets");
        },
    };
    assert(header_lines(headers@) =~= switching_response(request@, unix_seconds).headers);
    Ok((HttpResponse { status: 101, headers }, user))
}

/// A bare response with the given status, sent at the given moment: the
/// headers `Server` and `Date` and nothing else.
pub open spec fn plain_response(status: u16, unix_seconds: u64) -> ResponseView {
    ResponseView {
        status: status,
        headers: seq![
            (ascii("Server"@), ascii("Cluster23"@)),
            (ascii("Date"@), http_date(unix_seconds)),
        ],
    }
}

pub fn get_websocket_http_response(status_code: u16, unix_seconds: u64) -> (response: HttpResponse)
    requires
        unix_seconds < HTTP_DATE_LIMIT,
    ensures
        response@ == plain_response(status_code, unix_seconds),
{
    proof {
        reveal_strlit("Server");
        reveal_strlit("Cluster23");
        reveal_strlit("Date");
    }
    let date = format_http_date(unix_seconds);
    let mut headers: Vec<Header> = Vec::new();
    headers.push(header("Server", literal_bytes("Cluster23")));
    headers.push(header("Date", date.as_slice()));
    assert(header_lines(headers@) =~= plain_response(status_code, unix_seconds).headers);
    HttpResponse { status: status_code, headers }
}

/// The three decimal digits of a status code between 100 and 999.
pub open spec fn status_digits(status: u16) -> Seq<u8> {
    seq![
        (48 + status / 100) as u8,
        (48 + (status / 10) % 10) as u8,
        (48 + status % 10) as u8,
    ]
}

/// The end of a line: carriage return, line feed.
pub open spec fn crlf() -> Seq<u8> {
    seq![13u8, 10u8]
}

/// Header lines on the wire: for each, the name, a colon and a space, the
/// value, and the end of the line.
pub open spec fn header_block(headers: Seq<HeaderLine>) -> Seq<u8>
    decreases headers.len(),
{
    if headers.len() == 0 {
        Seq::empty()
    } else {
        header_block(headers.drop_last()) + headers.last().0 + ascii(": "@) + headers.last().1
            + crlf()
    }
}

/// A response on the wire: the status line with the given reason phrase,
/// the header lines, and an empty line.
pub open spec fn response_bytes(response: ResponseView, reason: Seq<u8>) -> Seq<u8> {
    ascii("HTTP/1.1 "@) + status_digits(response.status) + seq![32u8] + reason + crlf()
        + header_block(response.headers) + crlf()
}

/// Writes a response out as it goes over the wire. A status code without a
/// reason phrase cannot be written.
pub fn get_http_response_bytes(response: HttpResponse) -> (res: Result<Vec<u8>, &'static str>)
    ensures
        match res {
            Ok(bytes) => reason_phrase(response.status) is Some && bytes@ == response_bytes(
                response@,
                reason_phrase(response.status)->Some_0,
            ),
            Err(e) => reason_phrase(response.status) is None && e@ == "Unknown status code"@,
        },
{
    let reason = match canonical_reason(response.status) {
        Some(reason) => reason,
        None => {
            return Err("Unknown status code");
        },
    };
    proof {
        reveal_strlit("HTTP/1.1 ");
        reveal_strlit(": ");
        reveal_strlit("\r\n");
    }
    let crfl_bytes = literal_bytes("\r\n");
    let colon_bytes = literal_bytes(": ");
    assert(crfl_bytes@ =~= crlf());
    let status: u16 = response.status;
    let mut bytes: Vec<u8> = Vec::new();
    append_bytes(&mut bytes, literal_bytes("HTTP/1.1 "));
    bytes.push((48 + status / 100) as u8);
    bytes.push((48 + (status / 10) % 10) as u8);
    bytes.push((48 + status % 10) as u8);
    bytes.push(32);
    append_bytes(&mut bytes, reason.as_slice());
    append_bytes(&mut bytes, crfl_bytes);
    let ghost lines = header_lines(response.headers@);
    let ghost start = ascii("HTTP/1.1 "@) + status_digits(status) + seq![32u8] + reason@ + crlf();
    assert(bytes@ =~= start);
    assert(lines.take(0) =~= Seq::<HeaderLine>::empty());
    let mut i: usize = 0;
    while i < response.headers.len()
        invariant
            i <= response.headers@.len(),
            lines == header_lines(response.headers@),
            crfl_bytes@ == crlf(),
            colon_bytes@ == ascii(": "@),
            bytes@ == start + header_block(lines.take(i as int)),
        decreases response.headers@.len() - i,
    {
        let ghost before = bytes@;
        append_bytes(&mut bytes, response.headers[i].name.as_slice());
        append_bytes(&mut bytes, colon_bytes);
        append_bytes(&mut bytes, response.headers[i].value.as_slice());
        append_bytes(&mut bytes, crfl_bytes);
        proof {
            assert(lines.take(i + 1).drop_last() =~= lines.take(i as int));
            assert(lines.take(i + 1).last() == lines[i as int]);
            assert(bytes@ =~= start + header_block(lines.take(i + 1)));
        }
        i += 1;
    }
    assert(lines.take(i as int) =~= lines);
    append_bytes(&mut bytes, crfl_bytes);
    assert(bytes@ =~= response_bytes(response@, reason@));
    Ok(bytes)
}

/// The answer to the first bytes of a connection: the response to send and,
/// where the upgrade is granted, the user that the session belongs to.
#[derive(Debug)]
pub struct Handshake {
    pub response: HttpResponse,
    pub user_id: Option<String>,
}

/// Whether a parsed request head is granted the upgrade: it amounts to a
/// request, and that request is granted it.
pub open spec fn accepted(outcome: ParseOutcomeView, host: Seq<u8>) -> bool {
    request_of(outcome) is Ok && grants_upgrade(request_of(outcome)->Ok_0, host)
}

/// Whether an answer is the one that is owed to a parsed request head: the
/// granting response and the session's user where the upgrade is granted,
/// the refusal and no user where it is not.
pub open spec fn answers(
    answer: Handshake,
    outcome: ParseOutcomeView,
    host: Seq<u8>,
    unix_seconds: u64,
) -> bool {
    if accepted(outcome, host) {
        &&& answer.response@ == switching_response(request_of(outcome)->Ok_0, unix_seconds)
        &&& answer.user_id is Some
        &&& answer.user_id->Some_0@ == session_user(request_of(outcome)->Ok_0.headers)
    } else {
        &&& answer.response@ == bad_request_response()
        &&& answer.user_id is None
    }
}

/// Answers a parsed request head, at the given moment, on the node with the
/// address `host`. Whatever is wrong with the request, the answer is the
/// same refusal.
pub fn answer_handshake(outcome: ParseOutcome, host: &[u8], unix_seconds: u64) -> (answer:
    Handshake)
    requires
        unix_seconds < HTTP_DATE_LIMIT,
    ensures
        answers(answer, outcome@, host@, unix_seconds),
{
    let request = match request_from_parse(outcome) {
        Ok(request) => request,
        Err(_) => {
            return Handshake { response: create_401_response(), user_id: None };
        },
    };
    match create_websocket_response(request, host, unix_seconds) {
        Ok((response, user)) => Handshake { response, user_id: Some(user) },
        Err(_) => Handshake { response: create_401_response(), user_id: None },
    }
}

/// Answers the first bytes of a connection, at the given moment, on the node
/// with the address `host`.
pub fn handshake(bytes: &[u8], host: &[u8], unix_seconds: u64) -> (answer: Handshake)
    requires
        unix_seconds < HTTP_DATE_LIMIT,
    ensures
        answers(answer, httparse_outcome(bytes@), host@, unix_seconds),
{
    answer_handshake(parse_request_head(bytes), host, unix_seconds)
}

/// A response to a request for an upgrade has status 101 exactly when the
/// upgrade is granted, and status 400 otherwise.
pub proof fn lemma_handshake_status(
    answer: Handshake,
    outcome: ParseOutcomeView,
    host: Seq<u8>,
    unix_seconds: u64,
)
    requires
        answers(answer, outcome, host, unix_seconds),
    ensures
        answer.response@.status == 101 <==> accepted(outcome, host),
        answer.response@.status == 400 <==> !accepted(outcome, host),
        answer.user_id is Some <==> accepted(outcome, host),
        accepted(outcome, host) ==> header_value(
            answer.response@.headers,
            ascii("Sec-WebSocket-Accept"@),
        ) == Some(accept_key(client_key(request_of(outcome)->Ok_0.headers))),
        !accepted(outcome, host) ==> header_value(
            answer.response@.headers,
            ascii("Sec-WebSocket-Version"@),
        ) == Some(ascii("13"@)),
{
    reveal_strlit("Upgrade");
    reveal_strlit("Connection");
    reveal_strlit("Sec-WebSocket-Accept");
    reveal_strlit("Sec-WebSocket-Version");
    reveal_with_fuel(header_value, 4);
    let accept = ascii("Sec-WebSocket-Accept"@);
    assert(ascii("Upgrade"@).len() != accept.len());
    assert(ascii("Connection"@).len() != accept.len());
    if accepted(outcome, host) {
        let headers = answer.response@.headers;
        assert(headers[0].0 != accept);
        assert(headers[1].0 != accept);
        assert(headers.skip(1)[0] == headers[1]);
        assert(headers.skip(1).skip(1)[0] == headers[2]);
    }
}

} // verus!
