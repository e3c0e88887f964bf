//! Trusted wrappers around the blocking HTTP client. What comes back over
//! the network depends on the remote service, so these promise nothing of
//! their results; the functions that interpret the results carry the
//! contracts.

use vstd::prelude::*;

verus! {

/// Sends an HTTP POST with a JSON body and returns whether the status was
/// a success, together with the full body text.
///
/// Relies on reqwest's blocking client: `post` sends the body with the
/// JSON content type; `Response::status().is_success()` reports a 2xx
/// status; `Response::text()` reads the whole body. Every transport
/// failure comes back as its message. One caveat reqwest documents: the
/// blocking client panics when driven from inside an asynchronous
/// runtime; callers on such a runtime must use an asynchronous transport
/// with `begin_send`/`finish_send` instead.
#[verifier::external_body]
pub(crate) fn http_post_json(url: &str, body: &str) -> (r: Result<(bool, String), String>) {
    let client = reqwest::blocking::Client::builder().build().map_err(|e| e.to_string())?;
    let resp = client.post(url).header("Content-Type", "application/json").body(
        body.to_owned(),
    ).send().map_err(|e| e.to_string())?;
    let ok = resp.status().is_success();
    let text = resp.text().map_err(|e| e.to_string())?;
    Ok((ok, text))
}

/// Sends an HTTP GET and returns whether the status was a success,
/// together with the full body text.
///
/// Relies on reqwest's blocking client as `http_post_json` does, with
/// the same caveat about asynchronous runtimes.
#[verifier::external_body]
pub(crate) fn http_get_text(url: &str) -> (r: Result<(bool, String), String>) {
    let client = reqwest::blocking::Client::builder().build().map_err(|e| e.to_string())?;
    let resp = client.get(url).send().map_err(|e| e.to_string())?;
    let ok = resp.status().is_success();
    let text = resp.text().map_err(|e| e.to_string())?;
    Ok((ok, text))
}

/// Sends an HTTP GET and returns whether the status was a success, the
/// numeric status code, and the body bytes.
///
/// Relies on reqwest's blocking client: `Response::status().as_u16()` is
/// the numeric code; `Response::bytes()` reads the whole body. The same
/// caveat about asynchronous runtimes applies.
#[verifier::external_body]
pub(crate) fn http_get_bytes(url: &str) -> (r: Result<(bool, u16, Vec<u8>), String>) {
    let client = reqwest::blocking::Client::builder().build().map_err(|e| e.to_string())?;
    let resp = client.get(url).send().map_err(|e| e.to_string())?;
    let ok = resp.status().is_success();
    let code = resp.status().as_u16();
    let bytes = resp.bytes().map_err(|e| e.to_string())?;
    Ok((ok, code, bytes.to_vec()))
}

} // verus!
