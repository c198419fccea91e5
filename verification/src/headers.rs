//! HTTP header fields and the WebSocket handshake request.
use reqwest::header::{HeaderMap, HeaderValue, InvalidHeaderValue};
use tokio_tungstenite::tungstenite::client::IntoClientRequest;
use tokio_tungstenite::tungstenite::http::Request;
use tokio_tungstenite::tungstenite::Error as HandshakeError;
use vstd::prelude::*;
use vstd::utf8::encode_utf8;

verus! {

/// `http::HeaderMap`, the multimap of header fields.
#[verifier::external_type_specification]
#[verifier::external_body]
#[verifier::reject_recursive_types(T)]
pub struct ExHeaderMap<T>(reqwest::header::HeaderMap<T>);

/// `http::HeaderValue`, the bytes of one field value.
#[verifier::external_type_specification]
#[verifier::external_body]
pub struct ExHeaderValue(reqwest::header::HeaderValue);

/// `http::header::InvalidHeaderValue`, the refusal of a field value.
#[verifier::external_type_specification]
#[verifier::external_body]
pub struct ExInvalidHeaderValue(reqwest::header::InvalidHeaderValue);

/// `http::Request`, here a WebSocket handshake request without a body.
#[verifier::external_type_specification]
#[verifier::external_body]
#[verifier::reject_recursive_types(T)]
pub struct ExRequest<T>(tokio_tungstenite::tungstenite::http::Request<T>);

/// `tungstenite::Error`, here the refusal of a URL.
#[verifier::external_type_specification]
#[verifier::external_body]
pub struct ExHandshakeError(tokio_tungstenite::tungstenite::Error);

/// The bytes that a header value holds.
pub uninterp spec fn value_bytes(value: HeaderValue) -> Seq<u8>;

/// The fields that a header map holds: for each name, in lower case, the bytes of its values.
pub uninterp spec fn header_fields(map: HeaderMap<HeaderValue>) -> Map<Seq<char>, Seq<Seq<u8>>>;

/// The header fields of a request.
pub uninterp spec fn request_fields(request: Request<()>) -> Map<Seq<char>, Seq<Seq<u8>>>;

/// The URI of a request, as it displays.
pub uninterp spec fn request_uri(request: Request<()>) -> Seq<char>;

/// Whether an error is the refusal of a URI by `http` for its length.
pub uninterp spec fn uri_too_long(error: HandshakeError) -> bool;

/// No header fields at all.
pub open spec fn no_fields() -> Map<Seq<char>, Seq<Seq<u8>>> {
    Map::empty()
}

/// A text that can be a field value: no control character in it but the tab.
pub open spec fn header_text(text: Seq<char>) -> bool {
    forall|i: int|
        0 <= i < text.len() ==> {
            let code = #[trigger] text[i] as u32;
            code == 0x09 || 0x20 <= code && code != 0x7f
        }
}

/// A text of visible ASCII characters.
pub open spec fn visible_ascii(text: Seq<char>) -> bool {
    forall|i: int| 0 <= i < text.len() ==> 0x20 <= #[trigger] text[i] as u32 && text[i] as u32 <= 0x7e
}

/// A field name: at most sixty-four lower-case letters, digits and hyphens.
pub open spec fn field_name(name: Seq<char>) -> bool {
    &&& 1 <= name.len() <= 64
    &&& forall|i: int|
        0 <= i < name.len() ==> {
            let c = #[trigger] name[i];
            'a' <= c <= 'z' || '0' <= c <= '9' || c == '-'
        }
}

/// The most characters that `http` takes in a URI.
pub const MAX_URI_LEN: usize = 65534;

/// A character that a URL query carries as it is, or a percent sign.
pub open spec fn query_char(c: char) -> bool {
    ||| 'a' <= c <= 'z'
    ||| 'A' <= c <= 'Z'
    ||| '0' <= c <= '9'
    ||| c == '-' || c == '.' || c == '_' || c == '~' || c == '%' || c == '='
}

/// A `wss` URL without port, user or fragment.
pub open spec fn wss_url(host: Seq<char>, path: Seq<char>, query: Seq<char>) -> Seq<char> {
    "wss://"@ + host + "/"@ + path + "?"@ + query
}

/// Parts that a `wss` URL can be made of as they are.
pub open spec fn plain_parts(host: Seq<char>, path: Seq<char>, query: Seq<char>) -> bool {
    &&& host.len() > 0
    &&& forall|i: int| 0 <= i < host.len() ==> 'a' <= #[trigger] host[i] <= 'z' || host[i] == '.'
    &&& forall|i: int|
        0 <= i < path.len() ==> 'a' <= #[trigger] path[i] <= 'z' || '0' <= path[i] <= '9' || path[i]
            == '/'
    &&& forall|i: int| 0 <= i < query.len() ==> query_char(#[trigger] query[i])
}

/// A `wss` URL of plain parts.
pub open spec fn plain_wss_url(url: Seq<char>) -> bool {
    exists|host: Seq<char>, path: Seq<char>, query: Seq<char>|
        url == #[trigger] wss_url(host, path, query) && plain_parts(host, path, query)
}

/// The header fields of a WebSocket handshake with a host. The key is any single value.
pub open spec fn handshake_fields(fields: Map<Seq<char>, Seq<Seq<u8>>>, host: Seq<char>) -> bool {
    &&& fields.dom() == set![
        "host"@,
        "connection"@,
        "upgrade"@,
        "sec-websocket-version"@,
        "sec-websocket-key"@,
    ]
    &&& fields["host"@] == seq![encode_utf8(host)]
    &&& fields["connection"@] == seq![encode_utf8("Upgrade"@)]
    &&& fields["upgrade"@] == seq![encode_utf8("websocket"@)]
    &&& fields["sec-websocket-version"@] == seq![encode_utf8("13"@)]
    &&& fields["sec-websocket-key"@].len() == 1
}

/// Calls `HeaderValue::from_str`, which takes a text unless it holds a control character other
/// than the tab, and keeps its UTF-8 bytes.
#[verifier::external_body]
pub(crate) fn header_value(text: &str) -> (value: Result<HeaderValue, InvalidHeaderValue>)
    ensures
        match value {
            Ok(v) => header_text(text@) && value_bytes(v) == encode_utf8(text@),
            Err(_) => !header_text(text@),
        },
{
    HeaderValue::from_str(text)
}

/// Calls `HeaderValue::from_static`, which panics unless the text is visible ASCII (the tab aside)
/// and otherwise keeps its bytes.
#[verifier::external_body]
pub(crate) fn static_header_value(text: &'static str) -> (value: HeaderValue)
    requires
        visible_ascii(text@),
    ensures
        value_bytes(value) == encode_utf8(text@),
{
    HeaderValue::from_static(text)
}

/// Calls `HeaderMap::new`, which makes an empty map.
#[verifier::external_body]
pub(crate) fn new_header_map() -> (map: HeaderMap<HeaderValue>)
    ensures
        header_fields(map) == no_fields(),
{
    HeaderMap::new()
}

/// Calls `HeaderMap::insert`, which makes `value` the only value of the field. It panics where
/// the name is not a field name or the map outgrows its limit of some thousands of fields.
#[verifier::external_body]
pub(crate) fn insert_header(map: &mut HeaderMap<HeaderValue>, name: &'static str, value: HeaderValue)
    requires
        field_name(name@),
        header_fields(*old(map)).dom().finite(),
        header_fields(*old(map)).dom().len() < 1024,
    ensures
        header_fields(*final(map)) == header_fields(*old(map)).insert(
            name@,
            seq![value_bytes(value)],
        ),
{
    map.insert(name, value);
}

/// Calls `into_client_request` of `tungstenite` on a plain `wss` URL. It refuses a URL that is
/// too long, with an error that says so, and otherwise makes a handshake request for it with five fields. What the key among
/// them is stays unsaid: it is drawn at random.
#[verifier::external_body]
pub(crate) fn client_request(url: &str) -> (request: Result<Request<()>, HandshakeError>)
    requires
        plain_wss_url(url@),
    ensures
        match request {
            Ok(r) => {
                &&& url@.len() <= MAX_URI_LEN
                &&& request_uri(r) == url@
                &&& forall|host: Seq<char>, path: Seq<char>, query: Seq<char>|
                    url@ == #[trigger] wss_url(host, path, query) && plain_parts(host, path, query)
                        ==> handshake_fields(request_fields(r), host)
            },
            Err(e) => url@.len() > MAX_URI_LEN && uri_too_long(e),
        },
{
    url.into_client_request()
}

/// Calls `to_string` of `tungstenite::Error` on the refusal of a URI for its length, which
/// displays as the words of `http` behind those of `tungstenite`.
#[verifier::external_body]
pub(crate) fn uri_refusal_text(error: &HandshakeError) -> (text: String)
    requires
        uri_too_long(*error),
    ensures
        text@ == "HTTP format error: uri too long"@,
{
    error.to_string()
}

/// Calls `to_string` of `InvalidHeaderValue`, which displays as the same words whatever the value
/// was.
#[verifier::external_body]
pub(crate) fn header_refusal_text(error: &InvalidHeaderValue) -> (text: String)
    ensures
        text@ == "failed to parse header value"@,
{
    error.to_string()
}

/// Calls `Request::headers_mut`, which lends the header map of a request.
#[verifier::external_body]
pub(crate) fn request_headers(request: &mut Request<()>) -> (map: &mut HeaderMap<HeaderValue>)
    ensures
        header_fields(*map) == request_fields(*old(request)),
        request_fields(*final(request)) == header_fields(*final(map)),
        request_uri(*final(request)) == request_uri(*old(request)),
{
    request.headers_mut()
}

} // verus!
