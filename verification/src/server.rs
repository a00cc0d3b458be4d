//! The decisions of `rex serve`: answering a run request, reporting whether
//! a session runs, where the session's TCP server listens, and how the
//! session's answers are relayed over HTTP and WebSocket.
use vstd::prelude::*;
use crate::text::{owned, concat, trim, trim_spec};
use crate::transport::{Command, command_line_spec, command_name_spec, lemma_command_names_distinct};

verus! {

/// Whether `serde_json` reads the text as a JSON value.
pub uninterp spec fn json_text(s: Seq<char>) -> bool;

/// `serde_json::from_str::<serde_json::Value>(s)` succeeds.
#[verifier::external_body]
fn is_json(s: &str) -> (r: bool)
    ensures
        r == json_text(s@),
{
    match serde_json::from_str::<serde_json::Value>(s) {
        Ok(_) => true,
        Err(_) => false,
    }
}

/// A fresh random identifier for a session: `uuid::Uuid::new_v4()` in its
/// hyphenated form, 36 characters with `-` at positions 8, 13, 18 and 23.
/// Which identifier comes out is left open.
#[verifier::external_body]
fn new_session_id() -> (r: String)
    ensures
        r@.len() == 36,
        r@[8] == '-' && r@[13] == '-' && r@[18] == '-' && r@[23] == '-',
{
    uuid::Uuid::new_v4().to_string()
}

/// The answer to a run request.
pub struct RunResponse {
    pub id: String,
    pub message: String,
}

/// The answer to a run request that found a session running or not, the
/// new session being named `id`.
pub fn run_response(was_running: bool, id: String) -> (r: RunResponse)
    ensures
        !was_running ==> r.id == id && r.message@ == "session started"@,
        was_running ==> r.id@ == "None"@ && r.message@
            == "Session is already running, ignoring request"@,
{
    if was_running {
        RunResponse {
            id: owned("None"),
            message: owned("Session is already running, ignoring request"),
        }
    } else {
        RunResponse { id, message: owned("session started") }
    }
}

/// Answers a run request: a new session gets a fresh identifier, and a
/// request made while a session runs is ignored.
pub fn start_run(was_running: bool) -> (r: RunResponse)
    ensures
        !was_running ==> r.id@.len() == 36 && r.id@[8] == '-' && r.id@[13] == '-' && r.id@[18]
            == '-' && r.id@[23] == '-' && r.message@ == "session started"@,
        was_running ==> r.id@ == "None"@ && r.message@
            == "Session is already running, ignoring request"@,
{
    let id = new_session_id();
    run_response(was_running, id)
}

/// The status of `/status_check`: 200 while a session runs, 204 (the server
/// is up, no session) otherwise.
pub fn session_status_code(running: bool) -> (r: u16)
    ensures
        r == if running {
            200u16
        } else {
            204u16
        },
{
    if running {
        200
    } else {
        204
    }
}

/// The address of the session's TCP server: on all interfaces, at the
/// requested port or else the configured one.
pub fn session_address(port: Option<String>, config_port: String) -> (r: String)
    ensures
        r@ == "0.0.0.0:"@ + match port {
            Some(p) => p@,
            None => config_port@,
        },
{
    let p = match port {
        Some(p) => p,
        None => config_port,
    };
    concat("0.0.0.0:", p.as_str())
}

/// The address the HTTP server listens on.
pub fn listen_address(port: &str) -> (r: String)
    ensures
        r@ == "0.0.0.0:"@ + port@,
{
    concat("0.0.0.0:", port)
}

/// The line to send to the session for a command that came over the
/// WebSocket (surrounding whitespace ignored), or an error naming it.
pub fn tcp_line_for(text: &str) -> (r: Result<String, String>)
    ensures
        forall|c: Command|
            command_name_spec(c) == trim_spec(text@) ==> (r matches Ok(l) && l@
                == command_line_spec(c)),
        (forall|c: Command| command_name_spec(c) != trim_spec(text@)) ==> (r matches Err(e) && e@
            == "Unknown command: "@ + trim_spec(text@)),
{
    match Command::parse(text) {
        Some(c) => {
            proof {
                assert forall|c2: Command| command_name_spec(c2) == trim_spec(text@) implies c2
                    == c by {
                    lemma_command_names_distinct(c2, c);
                }
            }
            Ok(c.line())
        },
        None => {
            let t = trim(text);
            Err(concat("Unknown command: ", t.as_str()))
        },
    }
}

/// What goes back over the WebSocket: the session's answer, or the error
/// prefixed with `ERROR: `.
pub fn ws_reply(result: Result<String, String>) -> (r: String)
    ensures
        match result {
            Ok(a) => r == a,
            Err(e) => r@ == "ERROR: "@ + e@,
        },
{
    match result {
        Ok(a) => a,
        Err(e) => concat("ERROR: ", e.as_str()),
    }
}

/// The HTTP answer for a session command relayed as text: 200 with the
/// session's answer, or 502 when the session could not be reached.
pub fn text_reply(result: Result<String, String>) -> (r: (u16, String))
    ensures
        match result {
            Ok(a) => r.0 == 200 && r.1 == a,
            Err(e) => r.0 == 502 && r.1@ == "Error communicating with TCP server: "@ + e@,
        },
{
    match result {
        Ok(a) => (200, a),
        Err(e) => (502, concat("Error communicating with TCP server: ", e.as_str())),
    }
}

/// The HTTP answer for a session command relayed as JSON.
pub enum JsonReply {
    /// The session's answer, which reads as JSON.
    Json(String),
    /// An error status with its message.
    Error(u16, String),
}

/// Relays a session's answer as JSON: as it is when it reads as JSON, a
/// 502 naming it when it does not, a 502 when the session could not be
/// reached.
pub fn json_reply(result: Result<String, String>) -> (r: JsonReply)
    ensures
        match result {
            Ok(a) => if json_text(a@) {
                r == JsonReply::Json(a)
            } else {
                r matches JsonReply::Error(code, m) && code == 502 && m@
                    == "Received malformed JSON: "@ + a@
            },
            Err(e) => r matches JsonReply::Error(code, m) && code == 502 && m@
                == "Error communicating with TCP server: "@ + e@,
        },
{
    match result {
        Ok(a) => {
            if is_json(a.as_str()) {
                JsonReply::Json(a)
            } else {
                let m = concat("Received malformed JSON: ", a.as_str());
                JsonReply::Error(502, m)
            }
        },
        Err(e) => JsonReply::Error(502, concat("Error communicating with TCP server: ", e.as_str())),
    }
}

} // verus!
