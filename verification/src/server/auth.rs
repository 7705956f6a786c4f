//! Who may use the server.
use axum::http::{HeaderMap, HeaderValue};
use vstd::prelude::*;

use crate::server::reply::{openai_error, ErrorReply, UNAUTHORIZED};
use crate::text::{same_text, strip_prefix};

verus! {

/// `http::HeaderValue`, the bytes of a header field.
#[verifier::external_type_specification]
#[verifier::external_body]
pub struct ExHeaderValue(axum::http::HeaderValue);

/// The bytes that a header field holds.
pub uninterp spec fn header_bytes(value: HeaderValue) -> Seq<u8>;

/// `http::HeaderMap`, the header fields of a request.
#[verifier::external_type_specification]
#[verifier::external_body]
#[verifier::reject_recursive_types(T)]
pub struct ExHeaderMap<T>(axum::http::HeaderMap<T>);

/// The values of the header fields of a request: for each name, in lower case, the bytes of its
/// values in their order.
pub uninterp spec fn header_fields(headers: HeaderMap) -> Map<Seq<char>, Seq<Seq<u8>>>;

/// The name of a header field that needs no folding: lower-case letters and hyphens, and not too
/// many of them.
pub open spec fn is_field_name(name: Seq<char>) -> bool {
    &&& 1 <= name.len() <= 64
    &&& forall|i: int|
        0 <= i < name.len() ==> 'a' <= #[trigger] name[i] <= 'z' || name[i] == '-'
}

/// The bytes of the first value under a name.
pub open spec fn first_value(
    fields: Map<Seq<char>, Seq<Seq<u8>>>,
    name: Seq<char>,
) -> Option<Seq<u8>> {
    if fields.dom().contains(name) {
        Some(fields[name][0])
    } else {
        None
    }
}

/// Calls `http::HeaderMap::get`, which gives the first value under a name, and nothing where
/// there is no value under it. It folds the case of a name and finds nothing under one that no
/// header field can have; nothing is claimed of such names.
#[verifier::external_body]
fn first_field<'a>(headers: &'a HeaderMap, name: &str) -> (value: Option<&'a HeaderValue>)
    requires
        is_field_name(name@),
    ensures
        bytes_of(value) == first_value(header_fields(*headers), name@),
{
    headers.get(name)
}

/// The bytes of an optional header field.
pub open spec fn bytes_of(value: Option<&HeaderValue>) -> Option<Seq<u8>> {
    match value {
        Some(v) => Some(header_bytes(*v)),
        None => None,
    }
}

/// A byte that may stand in the text of a header field: visible ASCII, a space or a tab.
pub open spec fn is_visible(b: u8) -> bool {
    32 <= b < 127 || b == 9
}

/// All bytes may stand in the text of a header field.
pub open spec fn all_visible(bytes: Seq<u8>) -> bool {
    forall|i: int| 0 <= i < bytes.len() ==> is_visible(#[trigger] bytes[i])
}

/// ASCII bytes as characters.
pub open spec fn ascii_text(bytes: Seq<u8>) -> Seq<char> {
    Seq::new(bytes.len(), |i: int| bytes[i] as char)
}

/// The text of a header field, where it has one.
pub open spec fn header_text(bytes: Seq<u8>) -> Option<Seq<char>> {
    if all_visible(bytes) {
        Some(ascii_text(bytes))
    } else {
        None
    }
}

/// Calls `http::HeaderValue::to_str`, which succeeds if and only if all bytes are visible
/// ASCII, spaces or tabs, and then gives these bytes as text.
#[verifier::external_body]
fn text_of_header(value: &HeaderValue) -> (text: Option<String>)
    ensures
        crate::text::owned_text(text) == header_text(header_bytes(*value)),
{
    value.to_str().ok().map(String::from)
}

/// A request is let in where no key is set, or where its authorization is `Bearer` and the key.
pub open spec fn lets_in(key: Option<Seq<char>>, authorization: Option<Seq<char>>) -> bool {
    match key {
        Some(k) => authorization == Some("Bearer "@ + k),
        None => true,
    }
}

/// Lets a request in, or says that its key is not valid.
pub fn check_bearer(api_key: Option<&str>, authorization: Option<&str>) -> (verdict: Result<
    (),
    ErrorReply,
>)
    ensures
        verdict is Ok <==> lets_in(
            crate::text::text_of(api_key),
            crate::text::text_of(authorization),
        ),
        verdict matches Err(e) ==> e.says(
            UNAUTHORIZED,
            "invalid_api_key"@,
            "Invalid API key"@,
        ),
{
    let expected = match api_key {
        Some(k) => k,
        None => {
            return Ok(());
        },
    };
    let provided = match authorization {
        Some(text) => strip_prefix(text, "Bearer "),
        None => None,
    };
    let granted = match provided {
        Some(p) => {
            let same = same_text(p.as_str(), expected);
            proof {
                let text = (authorization->0)@;
                lemma_after_prefix(text, "Bearer "@, p@);
                lemma_after_prefix("Bearer "@ + expected@, "Bearer "@, expected@);
            }
            same
        },
        None => {
            proof {
                if authorization is Some && (authorization->0)@ == "Bearer "@ + expected@ {
                    assert(("Bearer "@ + expected@).subrange(0, "Bearer "@.len() as int)
                        =~= "Bearer "@);
                }
            }
            false
        },
    };
    if granted {
        Ok(())
    } else {
        Err(openai_error(UNAUTHORIZED, "invalid_api_key", "Invalid API key".to_owned()))
    }
}

/// What follows a prefix is what is left once the prefix is cut off.
proof fn lemma_after_prefix(text: Seq<char>, prefix: Seq<char>, rest: Seq<char>)
    requires
        text == prefix + rest,
    ensures
        text.subrange(prefix.len() as int, text.len() as int) == rest,
{
    assert(text.subrange(prefix.len() as int, text.len() as int) =~= rest);
}

/// The text of an optional header field.
pub open spec fn field_text(value: Option<Seq<u8>>) -> Option<Seq<char>> {
    match value {
        Some(bytes) => header_text(bytes),
        None => None,
    }
}

/// Lets a request with this authorization field in, or says that its key is not valid.
pub fn check_field(api_key: Option<&str>, value: Option<&HeaderValue>) -> (verdict: Result<
    (),
    ErrorReply,
>)
    ensures
        verdict is Ok <==> lets_in(crate::text::text_of(api_key), field_text(bytes_of(value))),
        verdict matches Err(e) ==> e.says(
            UNAUTHORIZED,
            "invalid_api_key"@,
            "Invalid API key"@,
        ),
{
    let text = match value {
        Some(value) => text_of_header(value),
        None => None,
    };
    match &text {
        Some(t) => check_bearer(api_key, Some(t.as_str())),
        None => check_bearer(api_key, None),
    }
}

/// Lets a request with these header fields in, or says that its key is not valid. The first
/// `authorization` field counts.
pub fn authorize(api_key: Option<&str>, headers: &HeaderMap) -> (verdict: Result<(), ErrorReply>)
    ensures
        verdict is Ok <==> lets_in(
            crate::text::text_of(api_key),
            field_text(first_value(header_fields(*headers), "authorization"@)),
        ),
        verdict matches Err(e) ==> e.says(
            UNAUTHORIZED,
            "invalid_api_key"@,
            "Invalid API key"@,
        ),
{
    proof {
        reveal_strlit("authorization");
    }
    check_field(api_key, first_field(headers, "authorization"))
}

/// Without a key every request is let in; with one, exactly the authorization that holds it.
pub proof fn law_only_the_key_lets_in(key: Seq<char>, other: Seq<char>)
    ensures
        forall|a: Option<Seq<char>>| lets_in(None, a),
        !lets_in(Some(key), None),
        lets_in(Some(key), Some("Bearer "@ + other)) <==> other == key,
{
    if "Bearer "@ + other == "Bearer "@ + key {
        lemma_after_prefix("Bearer "@ + other, "Bearer "@, other);
        lemma_after_prefix("Bearer "@ + other, "Bearer "@, key);
    }
}

/// Where a key is set, a request is let in if and only if it has an `authorization` field whose
/// first value is `Bearer`, a space and the key, byte by byte, all of it visible ASCII, spaces or
/// tabs.
pub proof fn law_first_field_holds_the_key(fields: Map<Seq<char>, Seq<Seq<u8>>>, key: Seq<char>)
    ensures
        lets_in(Some(key), field_text(first_value(fields, "authorization"@))) <==> {
            &&& fields.dom().contains("authorization"@)
            &&& fields["authorization"@][0].len() == 7 + key.len()
            &&& forall|i: int|
                0 <= i < 7 + key.len() ==> {
                    let b = #[trigger] fields["authorization"@][0][i];
                    &&& 32 <= b < 127 || b == 9
                    &&& b as char == ("Bearer "@ + key)[i]
                }
        },
{
    reveal_strlit("Bearer ");
    let wanted = "Bearer "@ + key;
    if fields.dom().contains("authorization"@) {
        let bytes = fields["authorization"@][0];
        if lets_in(Some(key), field_text(first_value(fields, "authorization"@))) {
            assert(all_visible(bytes) && ascii_text(bytes) == wanted);
            assert(ascii_text(bytes).len() == bytes.len());
            assert(wanted.len() == 7 + key.len());
            assert forall|i: int| 0 <= i < 7 + key.len() implies {
                let b = #[trigger] fields["authorization"@][0][i];
                &&& 32 <= b < 127 || b == 9
                &&& b as char == ("Bearer "@ + key)[i]
            } by {
                assert(is_visible(bytes[i]));
                assert(ascii_text(bytes)[i] == bytes[i] as char);
            }
        }
        if bytes.len() == 7 + key.len() && (forall|i: int|
            0 <= i < 7 + key.len() ==> {
                let b = #[trigger] fields["authorization"@][0][i];
                &&& 32 <= b < 127 || b == 9
                &&& b as char == ("Bearer "@ + key)[i]
            }) {
            assert forall|i: int| 0 <= i < bytes.len() implies is_visible(
                #[trigger] bytes[i],
            ) by {
                assert(fields["authorization"@][0][i] == bytes[i]);
            }
            assert forall|i: int| 0 <= i < bytes.len() implies ascii_text(bytes)[i]
                == wanted[i] by {
                assert(fields["authorization"@][0][i] == bytes[i]);
            }
            assert(ascii_text(bytes) =~= wanted);
        }
    }
}

} // verus!
