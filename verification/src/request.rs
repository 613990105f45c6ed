//! Building the request a plugin chain is run on, from the text of its
//! method and URI and an optional API key.

use vstd::prelude::*;
use vstd::string::*;
use http::header::{HeaderMap, InvalidHeaderValue};
use http::Request;
use crate::headers::{
    header_entries, header_key, header_map_new, header_map_try_insert, is_value_char,
    no_entries, parse_header_value,
};

verus! {

/// `http::Request`, opaque to the proofs; its parts are `request_method`,
/// `request_uri` and `request_headers`.
#[verifier::external_type_specification]
#[verifier::external_body]
#[verifier::reject_recursive_types(T)]
pub struct ExRequest<T>(Request<T>);

/// `http::Error`, the error of building a request.
#[verifier::external_type_specification]
#[verifier::external_body]
pub struct ExHttpError(http::Error);

/// Whether the request builder accepts a method and a URI given as text.
pub uninterp spec fn request_accepted(method: Seq<char>, uri: Seq<char>) -> bool;

/// The text of a request's method.
pub uninterp spec fn request_method(req: Request<()>) -> Seq<char>;

/// The text of a request's URI.
pub uninterp spec fn request_uri(req: Request<()>) -> Seq<char>;

/// The text of the URI parsed from `text`, as it is written back out.
pub uninterp spec fn parsed_uri(text: Seq<char>) -> Seq<char>;

/// What a request's header map holds, as `header_entries` models a map.
pub uninterp spec fn request_headers(req: Request<()>) -> Map<Seq<char>, Seq<Seq<u8>>>;

/// `Request::builder().method(method).uri(uri).body(())`, then the given
/// header map put in place of the request's (empty) one. It succeeds exactly
/// when the builder accepts the method and the URI; the request then has that
/// method, verbatim, the URI parsed from the text, and exactly the headers
/// given.
#[verifier::external_body]
fn build_request(method: &str, uri: &str, headers: HeaderMap) -> (r: Result<Request<()>, http::Error>)
    ensures
        (r is Ok) == request_accepted(method@, uri@),
        r matches Ok(req) ==> request_method(req) == method@,
        r matches Ok(req) ==> request_uri(req) == parsed_uri(uri@),
        r matches Ok(req) ==> request_headers(req) == header_entries(headers),
{
    let mut req = Request::builder().method(method).uri(uri).body(())?;
    *req.headers_mut() = headers;
    Ok(req)
}

/// Why a request could not be built.
#[derive(Debug)]
pub enum RequestError {
    /// The API key held a character a header value may not hold.
    InvalidApiKey(InvalidHeaderValue),
    /// The builder refused the method or the URI.
    Build(http::Error),
}

/// The key of the API key header.
pub open spec fn api_key_key() -> Seq<char> {
    header_key("X-API-Key"@).unwrap()
}

/// Every character of `text` may stand in a header value.
pub open spec fn valid_value(text: Seq<char>) -> bool {
    forall|i: int| 0 <= i < text.len() ==> is_value_char(#[trigger] text[i])
}

/// The headers a chain request carries: `X-API-Key` with the key's UTF-8
/// bytes when a key is given, nothing otherwise.
pub open spec fn chain_headers(api_key: Option<Seq<char>>) -> Map<Seq<char>, Seq<Seq<u8>>> {
    match api_key {
        Some(k) => no_entries().insert(api_key_key(), seq![vstd::utf8::encode_utf8(k)]),
        None => no_entries(),
    }
}

/// The key of the API key header is `x-api-key`, the name in lower case.
pub proof fn lemma_api_key_key()
    ensures
        header_key("X-API-Key"@) is Some,
        api_key_key() == "x-api-key"@,
{
    reveal_strlit("X-API-Key");
    reveal_strlit("x-api-key");
    assert(header_key("X-API-Key"@) is Some);
    assert(api_key_key() =~= "x-api-key"@);
}

/// A chain request given a key, of any length, carries one header, the API
/// key header, whose one value is exactly the key's UTF-8 bytes; given no
/// key it carries none.
pub proof fn lemma_chain_headers(k: Seq<char>)
    ensures
        chain_headers(Some(k)).dom() == set![api_key_key()],
        chain_headers(Some(k))[api_key_key()] == seq![vstd::utf8::encode_utf8(k)],
        chain_headers(None).dom() == Set::<Seq<char>>::empty(),
{
    assert(chain_headers(Some(k)).dom() =~= set![api_key_key()]);
    assert(chain_headers(None).dom() =~= Set::<Seq<char>>::empty());
}

/// The view of an optional text.
pub open spec fn opt_str_view(o: Option<&str>) -> Option<Seq<char>> {
    match o {
        Some(s) => Some(s@),
        None => None,
    }
}

/// The request a plugin chain is run on: the given method and URI, with an
/// `X-API-Key` header only when a key is given. It fails exactly when the key
/// holds a character a header value may not hold (`InvalidApiKey`, checked
/// first) or the builder refuses the method or URI (`Build`).
pub fn chain_request(method: &str, uri: &str, api_key: Option<&str>) -> (r: Result<Request<()>, RequestError>)
    ensures
        (r is Ok) == (request_accepted(method@, uri@) && (api_key matches Some(k) ==> valid_value(k@))),
        r matches Err(e) ==> (e is InvalidApiKey <==> (api_key matches Some(k) && !valid_value(k@))),
        r matches Ok(req) ==> request_method(req) == method@,
        r matches Ok(req) ==> request_uri(req) == parsed_uri(uri@),
        r matches Ok(req) ==> request_headers(req) == chain_headers(opt_str_view(api_key)),
        api_key is None ==> (r matches Ok(req) ==> request_headers(req).dom() == Set::<Seq<char>>::empty()),
        api_key matches Some(k) ==> (r matches Ok(req) ==> request_headers(req).dom() == set![api_key_key()]),
        api_key matches Some(k) ==> (r matches Ok(req) ==> request_headers(req)[api_key_key()]
            == seq![vstd::utf8::encode_utf8(k@)]),
{
    proof {
        if let Some(k) = api_key {
            lemma_chain_headers(k@);
        } else {
            lemma_chain_headers(Seq::<char>::empty());
        }
    }
    let mut headers = header_map_new();
    match api_key {
        Some(key) => {
            let value = match parse_header_value(key) {
                Ok(v) => v,
                Err(e) => {
                    return Err(RequestError::InvalidApiKey(e));
                },
            };
            proof {
                reveal_strlit("X-API-Key");
            }
            assert(header_key("X-API-Key"@) is Some);
            // An empty map always has room: the insertion cannot fail.
            let _inserted = header_map_try_insert(&mut headers, "X-API-Key", value);
        },
        None => {},
    }
    match build_request(method, uri, headers) {
        Ok(req) => Ok(req),
        Err(e) => Err(RequestError::Build(e)),
    }
}

} // verus!
