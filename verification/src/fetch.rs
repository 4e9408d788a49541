//! The request that asks the balance service for a tenant's records, and
//! the reading of what came back. The exchange itself is the caller's.

use crate::record::{BalanceRecord, Reading};
use reqwest::header::{HeaderMap, HeaderValue};
use vstd::prelude::*;
use vstd::string::StringSliceAdditionalSpecFns;

verus! {

/// `reqwest::header::HeaderMap`: the headers of a request. Verus sees none
/// of its fields; [`header_entries`] names what it holds.
#[verifier::external_type_specification]
#[verifier::external_body]
#[verifier::reject_recursive_types(T)]
pub struct ExHeaderMap<T>(HeaderMap<T>);

/// `reqwest::header::HeaderValue`: the value of one header. Verus sees none
/// of its fields; [`header_value_bytes`] names what it holds.
#[verifier::external_type_specification]
#[verifier::external_body]
pub struct ExHeaderValue(HeaderValue);

/// The entries of a header map in the order in which the map hands them
/// out: each with its name, in lower case, and the bytes of its value.
pub uninterp spec fn header_entries(map: HeaderMap) -> Seq<(Seq<char>, Seq<u8>)>;

/// The bytes that a header value holds.
pub uninterp spec fn header_value_bytes(value: HeaderValue) -> Seq<u8>;

/// `c` may stand in a header value: a tab, or any character from the space
/// on but DEL.
pub open spec fn is_header_value_char(c: char) -> bool {
    (c as u32 >= 32 && c as u32 != 127) || c == '\t'
}

/// `name` is made of ASCII letters and `-` only, and is between 1 and 64
/// characters long. Every such name is a header name.
pub open spec fn is_plain_header_name(name: Seq<char>) -> bool {
    &&& 1 <= name.len() <= 64
    &&& forall|i: int|
        0 <= i < name.len() ==> ('a' <= #[trigger] name[i] <= 'z' || 'A' <= name[i] <= 'Z'
            || name[i] == '-')
}

/// `c` with an ASCII capital turned into its small letter.
pub open spec fn lower(c: char) -> char {
    if 'A' <= c <= 'Z' {
        ((c as u8 + 32) as u8) as char
    } else {
        c
    }
}

/// `name` in lower case.
pub open spec fn lowercase(name: Seq<char>) -> Seq<char> {
    Seq::new(name.len(), |i: int| lower(name[i]))
}

/// No entry of `entries` goes by `name`.
pub open spec fn lacks_header(entries: Seq<(Seq<char>, Seq<u8>)>, name: Seq<char>) -> bool {
    forall|i: int| 0 <= i < entries.len() ==> (#[trigger] entries[i]).0 != name
}

/// A header map with no entries.
///
/// Trusted: calls `HeaderMap::new` of reqwest's `header` module, which
/// creates an empty map.
#[verifier::external_body]
fn empty_headers() -> (map: HeaderMap)
    ensures
        header_entries(map) == Seq::<(Seq<char>, Seq<u8>)>::empty(),
{
    HeaderMap::new()
}

/// The header value that holds the bytes of `text`, or `None` where `text`
/// holds a character that may not stand in a header value.
///
/// Trusted: calls `HeaderValue::from_str` of reqwest's `header` module. It
/// walks the bytes of `text` and fails on the first that is below 32 and no
/// tab, or is 127; a character beyond ASCII is made of bytes above 127 and
/// passes. On success the value holds a copy of the bytes of `text`.
#[verifier::external_body]
fn header_value(text: &str) -> (value: Option<HeaderValue>)
    ensures
        value is Some <==> (forall|i: int|
            0 <= i < text@.len() ==> is_header_value_char(#[trigger] text@[i])),
        value matches Some(v) ==> header_value_bytes(v) == text.spec_bytes(),
{
    HeaderValue::from_str(text).ok()
}

/// Puts a header that the map does not hold yet behind its other entries.
///
/// Trusted: calls `HeaderMap::insert` of reqwest's `header` module with a
/// `&'static str` as the name. The call panics on a name that is no header
/// name and when the map is full; `requires` leaves both out, the second by
/// a bound far below the map's limit of 32768 entries. The map stores the
/// name in lower case. A name that the map lacks gets a new entry at the end
/// of the entries, and the other entries stay as they are.
#[verifier::external_body]
fn insert_header(map: &mut HeaderMap, name: &'static str, value: HeaderValue)
    requires
        is_plain_header_name(name@),
        lacks_header(header_entries(*old(map)), lowercase(name@)),
        header_entries(*old(map)).len() < 1024,
    ensures
        header_entries(*final(map)) == header_entries(*old(map)).push(
            (lowercase(name@), header_value_bytes(value)),
        ),
{
    map.insert(name, value);
}

/// Why a fetch brought no records.
#[derive(Clone, Copy, Debug, PartialEq, Eq, Structural)]
pub enum FetchError {
    /// The service could not be reached, or the exchange broke off.
    Network,
    /// The service answered with a status outside 200 to 299.
    HttpStatus(u16),
    /// The answer was not the JSON document that holds the records.
    Decode,
}

/// What came of one request to the balance service.
pub enum Reply {
    /// No answer arrived.
    Unreachable,
    /// An answer arrived with this status. `body` holds the records that
    /// its JSON body decodes to, or `None` where it does not decode.
    Answered { status: u16, body: Option<Vec<BalanceRecord>> },
}

/// `status` reports success: it lies between 200 and 299.
pub open spec fn status_ok(status: u16) -> bool {
    200 <= status <= 299
}

/// What a fetch yields for each reply: the records, as they stand in the
/// body, only where an answer arrived, reported success and decoded.
pub open spec fn fetch_outcome(reply: Reply) -> Result<Seq<Reading>, FetchError> {
    match reply {
        Reply::Unreachable => Err(FetchError::Network),
        Reply::Answered { status, body } => if !status_ok(status) {
            Err(FetchError::HttpStatus(status))
        } else {
            match body {
                None => Err(FetchError::Decode),
                Some(records) => Ok(records.deep_view()),
            }
        },
    }
}

/// Whether `status` reports success.
pub fn is_success(status: u16) -> (ok: bool)
    ensures
        ok == status_ok(status),
{
    200 <= status && status <= 299
}

/// Reads a reply: the records of a good answer, or the reason why there are
/// none. A status outside 200 to 299 counts whatever the body holds, and a
/// body that does not decode yields no records at all.
pub fn fetch_result(reply: Reply) -> (fetched: Result<Vec<BalanceRecord>, FetchError>)
    ensures
        match fetched {
            Ok(records) => fetch_outcome(reply) == Ok::<Seq<Reading>, FetchError>(
                records.deep_view(),
            ),
            Err(error) => fetch_outcome(reply) == Err::<Seq<Reading>, FetchError>(error),
        },
{
    match reply {
        Reply::Unreachable => Err(FetchError::Network),
        Reply::Answered { status, body } => {
            if !is_success(status) {
                Err(FetchError::HttpStatus(status))
            } else {
                match body {
                    None => Err(FetchError::Decode),
                    Some(records) => Ok(records),
                }
            }
        },
    }
}

/// An answer with a status outside 200 to 299 is a failure of its own kind:
/// it yields that status whatever the body holds, and can be taken neither
/// for a body that did not decode nor for an answer that never came.
pub proof fn lemma_status_failure(status: u16, body: Option<Vec<BalanceRecord>>)
    requires
        !status_ok(status),
    ensures
        fetch_outcome(Reply::Answered { status, body }) == Err::<Seq<Reading>, FetchError>(
            FetchError::HttpStatus(status),
        ),
        fetch_outcome(Reply::Answered { status, body }) != Err::<Seq<Reading>, FetchError>(
            FetchError::Decode,
        ),
        fetch_outcome(Reply::Answered { status, body }) != fetch_outcome(Reply::Unreachable),
{
}

/// A good answer whose body does not decode yields no records, not even
/// some of them: the fetch fails as a whole.
pub proof fn lemma_decode_failure(status: u16)
    requires
        status_ok(status),
    ensures
        fetch_outcome(Reply::Answered { status, body: None }) == Err::<Seq<Reading>, FetchError>(
            FetchError::Decode,
        ),
        fetch_outcome(Reply::Answered { status, body: None }) is Err,
{
}

/// The address of the balance service up to the tenant's identifier.
pub open spec fn endpoint() -> Seq<char> {
    "http://api.4006269069.net/wechat/tenant/rentadviser/RdWxPact/getRdInteDeviceHouConList?TenId="@
}

/// The address to ask for the records of `tenant_id`: the endpoint with the
/// identifier behind it, as it is.
pub fn balance_url(tenant_id: &str) -> (url: String)
    ensures
        url@ == endpoint() + tenant_id@,
{
    let mut url = String::from_str(
        "http://api.4006269069.net/wechat/tenant/rentadviser/RdWxPact/getRdInteDeviceHouConList?TenId=",
    );
    url.append(tenant_id);
    url
}

/// The headers that the balance service wants to see, in the order in
/// which they are set: each name in lower case with the bytes of its value.
pub open spec fn request_header_entries() -> Seq<(Seq<char>, Seq<u8>)> {
    seq![
        (
            "user-agent"@,
            "Mozilla/5.0 (iPhone; CPU iPhone OS 6_1_3 like Mac OS X) AppleWebKit/536.26 (KHTML, like Gecko) Mobile/10B329 MicroMessenger/5.0.1".spec_bytes(),
        ),
        ("accept"@, "application/json, text/plain, */*".spec_bytes()),
        ("origin"@, "http://www.4006269069.net".spec_bytes()),
        ("referer"@, "http://www.4006269069.net".spec_bytes()),
        ("accept-encoding"@, "gzip, deflate".spec_bytes()),
        ("accept-language"@, "en-US,en;q=0.5".spec_bytes()),
        ("head-user-id"@, "".spec_bytes()),
    ]
}

/// Sets one header. Where `value` could not stand in a header the map stays
/// as it is.
fn set_header(map: &mut HeaderMap, name: &'static str, value: &str)
    requires
        is_plain_header_name(name@),
        lacks_header(header_entries(*old(map)), lowercase(name@)),
        header_entries(*old(map)).len() < 1024,
        forall|i: int| 0 <= i < value@.len() ==> is_header_value_char(#[trigger] value@[i]),
    ensures
        header_entries(*final(map)) == header_entries(*old(map)).push(
            (lowercase(name@), value.spec_bytes()),
        ),
{
    match header_value(value) {
        Some(v) => insert_header(map, name, v),
        None => {},
    }
}

/// The headers of a request to the balance service.
pub fn request_headers() -> (headers: HeaderMap)
    ensures
        header_entries(headers) == request_header_entries(),
{
    let mut headers = empty_headers();
    proof {
        reveal_strlit("User-Agent");
        reveal_strlit("user-agent");
        reveal_strlit("Accept");
        reveal_strlit("accept");
        reveal_strlit("Origin");
        reveal_strlit("origin");
        reveal_strlit("Referer");
        reveal_strlit("referer");
        reveal_strlit("Accept-Encoding");
        reveal_strlit("accept-encoding");
        reveal_strlit("Accept-Language");
        reveal_strlit("accept-language");
        reveal_strlit("Head-User-Id");
        reveal_strlit("head-user-id");
        reveal_strlit(
            "Mozilla/5.0 (iPhone; CPU iPhone OS 6_1_3 like Mac OS X) AppleWebKit/536.26 (KHTML, like Gecko) Mobile/10B329 MicroMessenger/5.0.1",
        );
        reveal_strlit("application/json, text/plain, */*");
        reveal_strlit("http://www.4006269069.net");
        reveal_strlit("gzip, deflate");
        reveal_strlit("en-US,en;q=0.5");
        reveal_strlit("");
        assert(lowercase("User-Agent"@) =~= "user-agent"@);
        assert(lowercase("Accept"@) =~= "accept"@);
        assert(lowercase("Origin"@) =~= "origin"@);
        assert(lowercase("Referer"@) =~= "referer"@);
        assert(lowercase("Accept-Encoding"@) =~= "accept-encoding"@);
        assert(lowercase("Accept-Language"@) =~= "accept-language"@);
        assert(lowercase("Head-User-Id"@) =~= "head-user-id"@);
        assert("origin"@[0] != "accept"@[0]);
        assert("referer"@[0] != "accept"@[0]);
        assert("accept-language"@[7] != "accept-encoding"@[7]);
        assert("head-user-id"@[0] != "user-agent"@[0]);
    }
    set_header(
        &mut headers,
        "User-Agent",
        "Mozilla/5.0 (iPhone; CPU iPhone OS 6_1_3 like Mac OS X) AppleWebKit/536.26 (KHTML, like Gecko) Mobile/10B329 MicroMessenger/5.0.1",
    );
    set_header(&mut headers, "Accept", "application/json, text/plain, */*");
    set_header(&mut headers, "Origin", "http://www.4006269069.net");
    set_header(&mut headers, "Referer", "http://www.4006269069.net");
    set_header(&mut headers, "Accept-Encoding", "gzip, deflate");
    set_header(&mut headers, "Accept-Language", "en-US,en;q=0.5");
    set_header(&mut headers, "Head-User-Id", "");
    assert(header_entries(headers) =~= request_header_entries());
    headers
}

} // verus!
