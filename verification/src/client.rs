//! The transport: one HTTP POST of a JSON body to the fixed local endpoint,
//! through the `ureq` client, behind a single trusted wrapper.
use vstd::prelude::*;

verus! {

#[verifier::external_type_specification]
#[verifier::external_body]
pub struct ExUreqError(ureq::Error);

#[verifier::external_type_specification]
#[verifier::external_body]
pub struct ExIoError(std::io::Error);

/// The fixed local endpoint of the remote application.
pub const ANKI_CONNECT_URL: &'static str = "http://localhost:8765";

/// Relies on ureq::post, ureq::Request::send_string and
/// ureq::Response::into_string: posts `body` to `url` and hands back the
/// response body text. A failed connection or request surfaces as the
/// transport error variant; a failure reading the body as the read-error
/// variant. No other variant is produced here.
#[verifier::external_body]
pub(crate) fn http_post_json(url: &str, body: &str) -> (r: Result<String, crate::AnkiError>)
    ensures
        r matches Err(e) ==> (e is Ureq || e is Serde),
{
    match ureq::post(url).set("Content-Type", "application/json; charset=UTF-8").send_string(body)
    {
        Ok(resp) => match resp.into_string() {
            Ok(s) => Ok(s),
            Err(e) => Err(crate::AnkiError::Serde(e)),
        },
        Err(e) => Err(crate::AnkiError::Ureq(Box::new(e))),
    }
}

} // verus!
