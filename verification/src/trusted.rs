//! The calls that leave the verified library. Verus takes each contract
//! below on trust; the bodies are not verified.

use vstd::prelude::*;

verus! {

/// A new server id: the random UUID of `uuid::Uuid::new_v4`, written by its
/// `Display` impl, which is the lower-case hyphenated form of 36 ASCII
/// characters. Two calls may return anything in that form, so nothing else
/// is claimed. It panics where the operating system gives no random bytes.
#[verifier::external_body]
pub(crate) fn fresh_id() -> (id: String)
    ensures
        id@.len() == 36,
{
    uuid::Uuid::new_v4().to_string()
}

/// The current time: `chrono::Utc::now`, written by `DateTime::to_rfc3339`.
/// The text depends on the clock, so nothing is claimed of it. It panics
/// where the system clock stands before 1970.
#[verifier::external_body]
pub(crate) fn timestamp() -> (now: String) {
    chrono::Utc::now().to_rfc3339()
}

/// Whether `http::Uri` accepts the text `url`: the outcome of its `FromStr`
/// impl, which depends on the text alone.
pub uninterp spec fn uri_accepts(url: Seq<char>) -> bool;

/// Whether `url` parses as a URI: `str::parse::<http::Uri>`, reached
/// through axum's re-export. The parser's grammar is not restated here; the
/// contract only names its verdict.
#[verifier::external_body]
pub(crate) fn parses_as_uri(url: &str) -> (ok: bool)
    ensures
        ok == uri_accepts(url@),
{
    url.parse::<axum::http::Uri>().is_ok()
}

/// The bytes that `http::HeaderValue` admits: every byte from 32 on but
/// 127, and the tab.
pub open spec fn is_header_byte(b: u8) -> bool {
    (b >= 32 && b != 127) || b == 9
}

/// The byte strings that `http::HeaderValue` admits.
pub open spec fn is_header_value(value: Seq<u8>) -> bool {
    forall|i: int| 0 <= i < value.len() ==> is_header_byte(#[trigger] value[i])
}

/// Whether `value` can be a header value: `http::HeaderValue::from_bytes`,
/// which refuses a value exactly when one of its bytes is a control
/// character other than the tab.
#[verifier::external_body]
pub(crate) fn header_value_ok(value: &[u8]) -> (ok: bool)
    ensures
        ok == is_header_value(value@),
{
    axum::http::HeaderValue::from_bytes(value).is_ok()
}

} // verus!
