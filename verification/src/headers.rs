//! HTTP header maps of the `http` crate, as the plugins see them.
//!
//! A `HeaderMap` is kept as it is; its contents are modelled as a map from the
//! header name in its lowercase canonical form to the list of byte strings
//! stored under that name.

use vstd::prelude::*;
use vstd::string::*;
use http::header::{HeaderMap, HeaderValue, InvalidHeaderValue, MaxSizeReached};

verus! {

/// `http::HeaderMap`, opaque to the proofs; its contents are `header_entries`.
#[verifier::external_type_specification]
#[verifier::external_body]
#[verifier::reject_recursive_types(T)]
pub struct ExHeaderMap<T>(HeaderMap<T>);

/// `http::HeaderValue`, opaque to the proofs; its bytes are `header_value_bytes`.
#[verifier::external_type_specification]
#[verifier::external_body]
pub struct ExHeaderValue(HeaderValue);

/// `http::header::InvalidHeaderValue`, the error of parsing a header value.
#[verifier::external_type_specification]
#[verifier::external_body]
pub struct ExInvalidHeaderValue(InvalidHeaderValue);

/// `http::header::MaxSizeReached`, the error of a map that cannot grow.
#[verifier::external_type_specification]
#[verifier::external_body]
pub struct ExMaxSizeReached(MaxSizeReached);

/// What a header map holds: for each key present, as the map stores it (for
/// a valid name, the name in ASCII lowercase, which is `header_key` of it),
/// the values stored under it in order, each as its bytes.
pub uninterp spec fn header_entries(map: HeaderMap) -> Map<Seq<char>, Seq<Seq<u8>>>;

/// The bytes a header value holds.
pub uninterp spec fn header_value_bytes(value: HeaderValue) -> Seq<u8>;

/// A character allowed in a header name (an RFC 7230 `tchar`).
pub open spec fn is_token_char(c: char) -> bool {
    ||| 'a' <= c <= 'z'
    ||| 'A' <= c <= 'Z'
    ||| '0' <= c <= '9'
    ||| c == '!' || c == '#' || c == '$' || c == '%' || c == '&' || c == '\''
    ||| c == '*' || c == '+' || c == '-' || c == '.' || c == '^' || c == '_'
    ||| c == '`' || c == '|' || c == '~'
}

/// ASCII lowercase of one character.
pub open spec fn ascii_lower(c: char) -> char {
    if 'A' <= c <= 'Z' {
        ((c as u32) + 32) as char
    } else {
        c
    }
}

/// The canonical key under which a header name is stored and looked up:
/// the name in ASCII lowercase, when it is a non-empty token of at most
/// 65535 characters; `None` for a name that is not a valid header name.
pub open spec fn header_key(name: Seq<char>) -> Option<Seq<char>> {
    if 0 < name.len() <= 65535 && forall|i: int| 0 <= i < name.len() ==> is_token_char(#[trigger] name[i]) {
        Some(name.map_values(|c: char| ascii_lower(c)))
    } else {
        None
    }
}

/// A name is present in a map when it is a valid name whose key is present.
pub open spec fn header_present(entries: Map<Seq<char>, Seq<Seq<u8>>>, name: Seq<char>) -> bool {
    header_key(name) matches Some(k) && entries.dom().contains(k)
}

/// A character a header value may hold: visible characters, space, tab and
/// any non-ASCII character.
pub open spec fn is_value_char(c: char) -> bool {
    (c >= ' ' && c != '\x7f') || c == '\t'
}

/// Why changing a header map failed.
#[derive(Debug)]
pub enum HeaderError {
    /// A header value held a character a value may not hold.
    InvalidValue(InvalidHeaderValue),
    /// The map could not grow to take another name.
    MapFull(MaxSizeReached),
}

/// The fewest distinct names a map holds when it cannot take one more:
/// below this many, its table never needs to grow past the crate's maximum.
pub const GROWTH_LIMIT: usize = 6554;

/// The contents of an empty map.
pub open spec fn no_entries() -> Map<Seq<char>, Seq<Seq<u8>>> {
    Map::empty()
}

/// `HeaderMap::new`: an empty map.
#[verifier::external_body]
pub fn header_map_new() -> (r: HeaderMap)
    ensures
        header_entries(r) == no_entries(),
{
    HeaderMap::new()
}

/// The map holds finitely many keys, `n` of them.
pub open spec fn holds_keys(entries: Map<Seq<char>, Seq<Seq<u8>>>, n: nat) -> bool {
    entries.dom().finite() && entries.dom().len() == n
}

/// `HeaderMap::keys_len`: a map holds finitely many keys, and the result is
/// their number.
#[verifier::external_body]
pub fn header_map_keys_len(map: &HeaderMap) -> (r: usize)
    ensures
        holds_keys(header_entries(*map), r as nat),
{
    map.keys_len()
}

/// `HeaderMap::contains_key`, looking a valid header name up by its
/// `&String` form: true exactly when the name's lowercase key is in the map.
/// (For an invalid name of more than 64 bytes the crate skips validation and
/// may match a key it stored from the same invalid text; such names are left
/// out by the `requires`.)
#[verifier::external_body]
pub fn header_map_contains_key(map: &HeaderMap, name: &String) -> (r: bool)
    requires
        header_key(name@) is Some,
    ensures
        r == header_present(header_entries(*map), name@),
{
    map.contains_key(name)
}

/// `HeaderMap::remove`, by a valid `&String` name: every value stored under
/// the name's key is removed; a name that is not present leaves the map as it
/// was. Invalid names are left out by the `requires`, as for
/// `header_map_contains_key`. The removed value that the method returns is
/// dropped.
#[verifier::external_body]
pub fn header_map_remove(map: &mut HeaderMap, name: &String)
    requires
        header_key(name@) is Some,
    ensures
        header_entries(*final(map)) == header_entries(*old(map)).remove(header_key(name@).unwrap()),
{
    let _ = map.remove(name);
}

/// `HeaderMap::try_insert` with a static name. On success all values stored
/// under the name's key are replaced by the one value given. It fails only
/// when the map's table would have to grow past the crate's maximum size,
/// which needs at least `GROWTH_LIMIT` names, and then leaves the contents as
/// they were. Whether it fails at or above that count depends on the map's
/// internal table state and is not stated. The method panics on an invalid
/// static name, which the `requires` leaves out. The replaced value that it
/// returns is dropped.
#[verifier::external_body]
pub fn header_map_try_insert(map: &mut HeaderMap, name: &'static str, value: HeaderValue) -> (r: Result<(), MaxSizeReached>)
    requires
        header_key(name@) is Some,
    ensures
        r is Ok ==> header_entries(*final(map)) == header_entries(*old(map)).insert(
            header_key(name@).unwrap(),
            seq![header_value_bytes(value)],
        ),
        r is Err ==> header_entries(*final(map)) == header_entries(*old(map)),
        r is Err ==> header_entries(*old(map)).dom().len() >= GROWTH_LIMIT,
{
    match map.try_insert(name, value) {
        Ok(_) => Ok(()),
        Err(e) => Err(e),
    }
}

/// Parsing a header value from text (`str::parse::<HeaderValue>`, that is
/// `HeaderValue::from_str`): it succeeds exactly when every character is
/// allowed in a value, and the value then holds the text's UTF-8 bytes.
#[verifier::external_body]
pub fn parse_header_value(text: &str) -> (r: Result<HeaderValue, InvalidHeaderValue>)
    ensures
        r is Ok <==> (forall|i: int| 0 <= i < text@.len() ==> is_value_char(#[trigger] text@[i])),
        r matches Ok(v) ==> header_value_bytes(v) == text.spec_bytes(),
{
    text.parse::<HeaderValue>()
}

} // verus!
