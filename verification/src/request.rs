//! Addresses of the requests to the track service.

use crate::text::text_of;
use vstd::prelude::*;

verus! {

/// The longest text, in bytes, that goes into an address.
pub const MAX_TEXT: usize = 0x0100_0000;

/// Whether `text` is short enough to go into an address.
pub open spec fn fits(text: Seq<char>) -> bool {
    vstd::utf8::encode_utf8(text).len() <= MAX_TEXT
}

/// The address `url` with the pair `name`, `value` appended to its query, or
/// nothing where `url` is no address.
pub uninterp spec fn url_with_pair(url: Seq<char>, name: Seq<char>, value: Seq<char>) -> Option<
    Seq<char>,
>;

/// Calls `url::Url::parse` on `url`, then `append_pair` on the parsed
/// address's `query_pairs_mut()`, and hands back the address as text.
///
/// Nothing is claimed of the text but that it depends on the three arguments
/// alone. `parse` refuses what is no address; the lengths keep the address
/// within the four gigabytes that the parsed form can index.
#[verifier::external_body]
fn append_query_pair(url: &str, name: &str, value: &str) -> (out: Option<String>)
    requires
        fits(url@),
        fits(name@),
        fits(value@),
    ensures
        text_of(out) == url_with_pair(url@, name@, value@),
{
    let mut parsed = url::Url::parse(url).ok()?;
    parsed.query_pairs_mut().append_pair(name, value);
    Some(parsed.into())
}

/// The address `url` with one more pair in its query; nothing where `url` is
/// absent, where a text is too long, or where `url` is no address.
pub open spec fn with_pair(url: Option<Seq<char>>, name: Seq<char>, value: Seq<char>) -> Option<
    Seq<char>,
> {
    match url {
        Some(address) => if fits(address) && fits(name) && fits(value) {
            url_with_pair(address, name, value)
        } else {
            None
        },
        None => None,
    }
}

/// Appends the pair `name`, `value` to the query of `url`.
pub fn add_pair(url: Option<String>, name: &str, value: &str) -> (out: Option<String>)
    ensures
        text_of(out) == with_pair(text_of(url), name@, value@),
{
    match url {
        Some(address) => {
            if address.as_str().as_bytes().len() <= MAX_TEXT && name.as_bytes().len() <= MAX_TEXT
                && value.as_bytes().len() <= MAX_TEXT {
                append_query_pair(address.as_str(), name, value)
            } else {
                None
            }
        },
        None => None,
    }
}

/// The address of a request: `base` with the method, the listener, the key
/// and the format of the reply in its query, in this order.
pub open spec fn request_url(
    base: Seq<char>,
    method: Seq<char>,
    user: Seq<char>,
    key: Seq<char>,
) -> Option<Seq<char>> {
    with_pair(
        with_pair(
            with_pair(with_pair(Some(base), "method"@, method), "user"@, user),
            "api_key"@,
            key,
        ),
        "format"@,
        "json"@,
    )
}

/// Builds the address of a request for `method` about `user`.
pub fn build_request_url(base: &str, method: &str, user: &str, key: &str) -> (out: Option<String>)
    ensures
        text_of(out) == request_url(base@, method@, user@, key@),
{
    let url = add_pair(Some(base.to_owned()), "method", method);
    let url = add_pair(url, "user", user);
    let url = add_pair(url, "api_key", key);
    add_pair(url, "format", "json")
}

} // verus!
