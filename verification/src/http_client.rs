//! Talking to the server: the addresses to call and the reading of its
//! answers.  The calls themselves are made elsewhere.

use crate::text::{
    blank, drop_space, drop_trailing, has_prefix, is_blank, same_text, skip_space, starts_with,
    text_of, to_chars, trimmed, without_trailing,
};
use vstd::prelude::*;

verus! {

/// A server address without white space around it and without slashes at
/// its end.
pub open spec fn bare_url(url: Seq<char>) -> Seq<char> {
    without_trailing(trimmed(url), '/')
}

/// A server address in its normal form: no white space around it, no slash
/// at its end, and `https://` in front unless it names its scheme.
pub open spec fn normalized_url(url: Seq<char>) -> Seq<char> {
    let bare = bare_url(url);
    if has_prefix(bare, "http://"@) || has_prefix(bare, "https://"@) {
        bare
    } else {
        "https://"@ + bare
    }
}

/// Brings a server address into its normal form.
pub fn normalize_url(url: &str) -> (normal: String)
    ensures
        normal@ == normalized_url(url@),
{
    let chars = to_chars(url);
    let n: usize = chars.len();
    assert(chars@.subrange(0, n as int) =~= chars@);
    let start = skip_space(&chars, 0, n);
    let end = drop_space(&chars, start, n);
    let end = drop_trailing(&chars, start, end, '/');
    let bare = text_of(&chars, start, end);
    if starts_with(&chars, start, end, "http://") || starts_with(&chars, start, end, "https://") {
        bare
    } else {
        let mut normal = String::from_str("https://");
        normal.append(bare.as_str());
        normal
    }
}

/// The address at which a server says whether it is alive.
pub fn live_endpoint(server_url: &str) -> (endpoint: String)
    ensures
        endpoint@ == normalized_url(server_url@) + "/api/live"@,
{
    let mut endpoint = normalize_url(server_url);
    endpoint.append("/api/live");
    endpoint
}

/// The value of the header that carries a device token.
pub fn bearer(token: &str) -> (value: String)
    ensures
        value@ == "Bearer "@ + token@,
{
    let mut value = String::from_str("Bearer ");
    value.append(token);
    value
}

/// Whether an HTTP status code stands for success.
pub open spec fn is_success(status: u16) -> bool {
    200 <= status <= 299
}

/// The verdict on the status line of the server's answer to the liveness
/// call.  `status_text` is the status as the HTTP client prints it.
pub fn check_live_status(status: u16, status_text: &str) -> (r: Result<(), String>)
    ensures
        status == 401 ==> (r matches Err(e) && e@
            == "authentication failed — check your device token"@),
        status != 401 && !is_success(status) ==> (r matches Err(e) && e@
            == "server returned HTTP "@ + status_text@),
        is_success(status) ==> r is Ok,
{
    if status == 401 {
        return Err(String::from_str("authentication failed — check your device token"));
    }
    if status < 200 || status > 299 {
        let mut message = String::from_str("server returned HTTP ");
        message.append(status_text);
        return Err(message);
    }
    Ok(())
}

/// The verdict on the body of the server's answer to the liveness call:
/// what the body gave as its status, or why it could not be read.
pub fn check_live_body(status_field: Result<String, String>) -> (r: Result<(), String>)
    ensures
        match status_field {
            Ok(s) => if s@ == "ok"@ {
                r is Ok
            } else {
                r matches Err(e) && e@ == "unexpected status: "@ + s@ + " (expected \"ok\")"@
            },
            Err(why) => r matches Err(e) && e@ == "invalid server response: "@ + why@,
        },
{
    match status_field {
        Ok(s) => {
            if same_text(s.as_str(), "ok") {
                Ok(())
            } else {
                let mut message = String::from_str("unexpected status: ");
                message.append(s.as_str());
                message.append(" (expected \"ok\")");
                Err(message)
            }
        },
        Err(why) => {
            let mut message = String::from_str("invalid server response: ");
            message.append(why.as_str());
            Err(message)
        },
    }
}

/// The verdict on the form before the liveness call is made: without a
/// server address or without a token there is nothing to call.
pub fn check_connection_form(server_url: &str, token: &str) -> (r: Result<(), String>)
    ensures
        is_blank(server_url@) || is_blank(token@) ==> (r matches Err(e)
            && e@ == "server URL and token must be configured first"@),
        !is_blank(server_url@) && !is_blank(token@) ==> r is Ok,
{
    if blank(server_url) || blank(token) {
        Err(String::from_str("server URL and token must be configured first"))
    } else {
        Ok(())
    }
}

} // verus!
