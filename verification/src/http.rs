//! The viewer's side of an HTTP connection to `rex serve`: which request a
//! command becomes, and how each reply or failure is read, keeping track
//! of whether the server runs a session.
use vstd::prelude::*;
use crate::text::{owned, concat, push_str, nat_to_dec};
use crate::transport::{base_url, base_url_spec, lemma_command_names_distinct, Command, Endpoint, endpoint_of, endpoint_path_spec, endpoint_url, command_name_spec};
use crate::text::trim_spec;
use crate::server::json_text;
use crate::state::strs;

verus! {

/// The text that follows the code in an HTTP status line: the status's
/// canonical reason phrase, or `<unknown status code>` (the part after the
/// space in what `http::StatusCode`'s `Display` writes).
pub uninterp spec fn status_reason(code: u16) -> Seq<char>;

/// `reqwest::StatusCode::from_u16(code)` shown with `Display`: the code in
/// decimal, a space, and the reason phrase.
#[verifier::external_body]
fn status_line(code: u16) -> (r: String)
    requires
        100 <= code <= 999,
    ensures
        r@ == nat_to_dec(code as nat) + " "@ + status_reason(code),
{
    match reqwest::StatusCode::from_u16(code) {
        Ok(s) => s.to_string(),
        Err(_) => String::new(),
    }
}

/// The viewer's connection to a `rex serve` instance: where it is, and
/// what it knows of the session there.
pub struct HTTPTransport {
    /// The server's base URL, without a trailing `/`.
    pub base_url: String,
    /// Whether the server ran a session when it last answered.
    pub has_active_session: bool,
}

/// A request to send for a command.
pub struct HttpRequest {
    pub endpoint: Endpoint,
    pub url: String,
    /// POST for the commands that change the session, GET otherwise.
    pub post: bool,
}

/// Why a request got no answer.
pub enum SendFailure {
    /// The request could not be built; the builder's message.
    Build(String),
    /// The request timed out; the client's message.
    Timeout(String),
    /// No connection could be made; the client's message.
    Connect(String),
    /// Any other failure; its message.
    Other(String),
}

/// The status and body of an answer: the body as text, or the error met
/// reading it.
pub struct HttpReply {
    pub status: u16,
    pub body: Result<String, String>,
}

impl HTTPTransport {
    /// A connection to the server at `addr` (`http://` put in front when
    /// no scheme is given, trailing `/` removed), no session known to run.
    pub fn new(addr: &str) -> (r: HTTPTransport)
        ensures
            r.base_url@ == base_url_spec(addr@),
            !r.has_active_session,
    {
        HTTPTransport { base_url: base_url(addr), has_active_session: false }
    }

    /// The request for a command given as text (surrounding whitespace
    /// ignored), or an error naming the text as it came.
    pub fn plan(&self, command: &str) -> (r: Result<HttpRequest, String>)
        ensures
            (forall|c: Command| command_name_spec(c) != trim_spec(command@)) ==> (r matches Err(
                m,
            ) && m@ == "Unknown command: "@ + command@),
            forall|c: Command|
                command_name_spec(c) == trim_spec(command@) ==> (r matches Ok(q) && {
                    &&& q.endpoint == endpoint_of(c)
                    &&& q.url@ == self.base_url@ + seq!['/'] + endpoint_path_spec(endpoint_of(c))
                    &&& q.post == (endpoint_of(c) == Endpoint::Kill || endpoint_of(c)
                        == Endpoint::Pause || endpoint_of(c) == Endpoint::Continue)
                }),
    {
        match Command::parse(command) {
            None => Err(concat("Unknown command: ", command)),
            Some(c) => {
                let e = Endpoint::for_command(c);
                let url = endpoint_url(self.base_url.as_str(), e);
                let post = e.is_post();
                proof {
                    assert forall|c2: Command| command_name_spec(c2) == trim_spec(command@) implies c2
                        == c by {
                        lemma_command_names_distinct(c2, c);
                    }
                }
                Ok(HttpRequest { endpoint: e, url, post })
            },
        }
    }

    /// Reads what came of a command's request sent to `url`. A failure to
    /// send, or a 502 (the server is up but runs no session), marks the
    /// session as not running; a success marks it running and gives the
    /// body; any other status is an error carrying the status and body.
    pub fn finish_command(
        &mut self,
        endpoint: Endpoint,
        url: &str,
        outcome: Result<HttpReply, SendFailure>,
    ) -> (r: Result<String, String>)
        requires
            outcome matches Ok(reply) ==> 100 <= reply.status <= 999,
        ensures
            final(self).base_url == old(self).base_url,
            match outcome {
                Err(SendFailure::Build(m)) => final(self).has_active_session
                    == old(self).has_active_session && (r matches Err(e) && e@
                    == "Request builder error: "@ + m@),
                Err(SendFailure::Timeout(_)) => !final(self).has_active_session && (r matches Err(e)
                    && e@ == "Request to "@ + url@ + " timed out"@),
                Err(SendFailure::Connect(_)) => !final(self).has_active_session && (r matches Err(e)
                    && e@ == "Could not connect to HTTP server at "@ + url@),
                Err(SendFailure::Other(m)) => !final(self).has_active_session && r == Err::<
                    String,
                    String,
                >(m),
                Ok(reply) => if reply.status == 502 {
                    !final(self).has_active_session && (r matches Err(e) && e@
                        == "No active session"@)
                } else if 200 <= reply.status <= 299 {
                    final(self).has_active_session && r == reply.body
                } else {
                    &&& final(self).has_active_session == old(self).has_active_session
                    &&& r matches Err(e) && e@ == "HTTP "@ + endpoint_path_spec(endpoint)
                        + " returned status "@ + nat_to_dec(reply.status as nat) + " "@
                        + status_reason(reply.status) + ": "@ + match reply.body {
                        Ok(b) => b@,
                        Err(_) => "Could not read error body"@,
                    }
                },
            },
    {
        match outcome {
            Err(SendFailure::Build(m)) => Err(concat("Request builder error: ", m.as_str())),
            Err(SendFailure::Timeout(_)) => {
                self.has_active_session = false;
                let mut e = owned("Request to ");
                push_str(&mut e, url);
                push_str(&mut e, " timed out");
                Err(e)
            },
            Err(SendFailure::Connect(_)) => {
                self.has_active_session = false;
                Err(concat("Could not connect to HTTP server at ", url))
            },
            Err(SendFailure::Other(m)) => {
                self.has_active_session = false;
                Err(m)
            },
            Ok(reply) => {
                if reply.status == 502 {
                    self.has_active_session = false;
                    Err(owned("No active session"))
                } else if reply.status >= 200 && reply.status <= 299 {
                    self.has_active_session = true;
                    reply.body
                } else {
                    let status = status_line(reply.status);
                    let path = endpoint.path();
                    let body = match reply.body {
                        Ok(b) => b,
                        Err(_) => owned("Could not read error body"),
                    };
                    let mut e = owned("HTTP ");
                    push_str(&mut e, path.as_str());
                    push_str(&mut e, " returned status ");
                    push_str(&mut e, status.as_str());
                    push_str(&mut e, ": ");
                    push_str(&mut e, body.as_str());
                    Err(e)
                }
            },
        }
    }

    /// Reads what came of a request to start a run: a success marks the
    /// session as running; a failure to send gives its message; any other
    /// status is an error carrying the status and body.
    pub fn finish_rerun(&mut self, outcome: Result<HttpReply, SendFailure>) -> (r: Result<(), String>)
        requires
            outcome matches Ok(reply) ==> 100 <= reply.status <= 999,
        ensures
            final(self).base_url == old(self).base_url,
            match outcome {
                Err(SendFailure::Build(m)) => final(self).has_active_session
                    == old(self).has_active_session && (r matches Err(e) && e@
                    == "Request builder error: "@ + m@),
                Err(SendFailure::Timeout(m)) => final(self).has_active_session
                    == old(self).has_active_session && r == Err::<(), String>(m),
                Err(SendFailure::Connect(m)) => final(self).has_active_session
                    == old(self).has_active_session && r == Err::<(), String>(m),
                Err(SendFailure::Other(m)) => final(self).has_active_session
                    == old(self).has_active_session && r == Err::<(), String>(m),
                Ok(reply) => if 200 <= reply.status <= 299 {
                    final(self).has_active_session && r is Ok
                } else {
                    &&& final(self).has_active_session == old(self).has_active_session
                    &&& r matches Err(e) && e@ == "HTTP /run failed with status "@ + nat_to_dec(
                        reply.status as nat,
                    ) + " "@ + status_reason(reply.status) + ": "@ + match reply.body {
                        Ok(b) => b@,
                        Err(_) => "Unknown error"@,
                    }
                },
            },
    {
        match outcome {
            Err(SendFailure::Build(m)) => Err(concat("Request builder error: ", m.as_str())),
            Err(SendFailure::Timeout(m)) => Err(m),
            Err(SendFailure::Connect(m)) => Err(m),
            Err(SendFailure::Other(m)) => Err(m),
            Ok(reply) => {
                if reply.status >= 200 && reply.status <= 299 {
                    self.has_active_session = true;
                    Ok(())
                } else {
                    let status = status_line(reply.status);
                    let body = match reply.body {
                        Ok(b) => b,
                        Err(_) => owned("Unknown error"),
                    };
                    let mut e = owned("HTTP /run failed with status ");
                    push_str(&mut e, status.as_str());
                    push_str(&mut e, ": ");
                    push_str(&mut e, body.as_str());
                    Err(e)
                }
            },
        }
    }

    /// Takes in whether the server reported a running session
    /// (`/status_check` answering 200): the connection is usable only then.
    pub fn finish_session_check(&mut self, status: Option<u16>) -> (r: Result<(), String>)
        ensures
            final(self).base_url == old(self).base_url,
            final(self).has_active_session == (status == Some(200u16)),
            status == Some(200u16) ==> r is Ok,
            status != Some(200u16) ==> (r matches Err(e) && e@ == "No active session"@),
    {
        let running = match status {
            Some(s) => s == 200,
            None => false,
        };
        self.has_active_session = running;
        if running {
            Ok(())
        } else {
            Err(owned("No active session"))
        }
    }

    /// Forgets the session: the server is treated as running none.
    pub fn disconnect(&mut self)
        ensures
            final(self).base_url == old(self).base_url,
            !final(self).has_active_session,
    {
        self.has_active_session = false;
    }

    /// Whether the server ran a session when it last answered.
    pub fn is_connected(&self) -> (r: bool)
        ensures
            r == self.has_active_session,
    {
        self.has_active_session
    }
}


/// The message `serde_json` gives for text that is not JSON.
pub uninterp spec fn json_error(text: Seq<char>) -> Seq<char>;

/// The items of the array under `key` in the JSON object `text`, each a
/// string or not (`None`); `None` when there is no array there.
pub uninterp spec fn json_array_items(text: Seq<char>, key: Seq<char>) -> Option<Seq<Option<Seq<char>>>>;

/// The string under `key` in the JSON object `text`, if there is one.
pub uninterp spec fn json_string_field(text: Seq<char>, key: Seq<char>) -> Option<Seq<char>>;

/// Reads `text` as JSON (`serde_json::from_str::<serde_json::Value>`) and
/// gives the items of the array under `key`, each as its string when it is
/// one; the parser's message when the text is not JSON.
#[verifier::external_body]
fn array_items(text: &str, key: &str) -> (r: Result<Option<Vec<Option<String>>>, String>)
    ensures
        match r {
            Err(e) => !json_text(text@) && e@ == json_error(text@),
            Ok(None) => json_text(text@) && json_array_items(text@, key@) is None,
            Ok(Some(v)) => json_text(text@) && json_array_items(text@, key@) == Some(
                Seq::new(v@.len(), |i: int| opt_chars(v@[i])),
            ),
        },
{
    match serde_json::from_str::<serde_json::Value>(text) {
        Ok(json) => Ok(json.get(key).and_then(|v| v.as_array()).map(
            |a| a.iter().map(|v| v.as_str().map(|s| s.to_string())).collect(),
        )),
        Err(e) => Err(e.to_string()),
    }
}

/// Reads `text` as JSON and gives the string under `key`, if any; the
/// the parser's message when the text is not JSON.
#[verifier::external_body]
fn string_field(text: &str, key: &str) -> (r: Result<Option<String>, String>)
    ensures
        match r {
            Err(e) => !json_text(text@) && e@ == json_error(text@),
            Ok(o) => json_text(text@) && json_string_field(text@, key@) == opt_chars(o),
        },
{
    match serde_json::from_str::<serde_json::Value>(text) {
        Ok(json) => Ok(json.get(key).and_then(|v| v.as_str()).map(|s| s.to_string())),
        Err(e) => Err(e.to_string()),
    }
}

/// The characters of an optional string.
pub open spec fn opt_chars(o: Option<String>) -> Option<Seq<char>> {
    match o {
        Some(s) => Some(s@),
        None => None,
    }
}

/// The strings among the items, in order.
pub open spec fn present_strings(items: Seq<Option<Seq<char>>>) -> Seq<Seq<char>>
    decreases items.len(),
{
    if items.len() == 0 {
        Seq::empty()
    } else {
        present_strings(items.drop_last()) + match items.last() {
            Some(s) => seq![s],
            None => Seq::empty(),
        }
    }
}

fn keep_strings(items: Vec<Option<String>>) -> (r: Vec<String>)
    ensures
        strs(r@) == present_strings(Seq::new(items@.len(), |i: int| opt_chars(items@[i]))),
{
    let ghost all = Seq::new(items@.len(), |i: int| opt_chars(items@[i]));
    let mut out: Vec<String> = Vec::new();
    let mut i: usize = 0;
    assert(all.take(0) =~= Seq::<Option<Seq<char>>>::empty());
    assert(strs(out@) =~= Seq::<Seq<char>>::empty());
    while i < items.len()
        invariant
            all == Seq::new(items@.len(), |i: int| opt_chars(items@[i])),
            i <= items@.len(),
            strs(out@) == present_strings(all.take(i as int)),
        decreases items@.len() - i,
    {
        assert(all.take(i + 1).drop_last() =~= all.take(i as int));
        assert(all.take(i + 1).last() == opt_chars(items@[i as int]));
        let ghost before = out@;
        match &items[i] {
            Some(s) => {
                out.push(s.clone());
                assert(strs(out@) =~= strs(before) + seq![s@]);
            },
            None => {
                assert(strs(out@) =~= strs(before) + Seq::<Seq<char>>::empty());
            },
        }
        i = i + 1;
    }
    assert(all.take(items@.len() as int) =~= all);
    out
}

impl HTTPTransport {
    /// Reads the server's answer to `GET /allowed_output_dirs`: the
    /// directories listed under `dirs` (items that are not strings left out).
    /// `body` is the reply's body as JSON text, or the message of the HTTP
    /// client when it could not read the body as JSON.
    pub fn get_allowed_output_dirs(status: u16, body: Result<String, String>) -> (r: Result<Vec<String>, String>)
        ensures
            !(200 <= status <= 299) ==> (r matches Err(e) && e@ == "Failed to get output dirs list"@),
            200 <= status <= 299 ==> match body {
                Err(e) => r == Err::<Vec<String>, String>(e),
                Ok(t) => if !json_text(t@) {
                    r matches Err(e) && e@ == json_error(t@)
                } else {
                    match json_array_items(t@, "dirs"@) {
                        None => r matches Err(e) && e@ == "Invalid dirs array"@,
                        Some(items) => r matches Ok(v) && strs(v@) == present_strings(items),
                    }
                },
            },
    {
        if !(status >= 200 && status <= 299) {
            return Err(owned("Failed to get output dirs list"));
        }
        let text = match body {
            Ok(t) => t,
            Err(e) => {
                return Err(e);
            },
        };
        match array_items(text.as_str(), "dirs") {
            Err(e) => Err(e),
            Ok(None) => Err(owned("Invalid dirs array")),
            Ok(Some(items)) => Ok(keep_strings(items)),
        }
    }

    /// Reads the server's answer to `GET /allowed_scripts`: the directory
    /// under `base_dir` and the scripts listed under `files` (items that are
    /// not strings left out).
    /// `body` is the reply's body as JSON text, or the message of the HTTP
    /// client when it could not read the body as JSON.
    pub fn get_allowed_scripts(status: u16, body: Result<String, String>) -> (r: Result<
        (String, Vec<String>),
        String,
    >)
        ensures
            !(200 <= status <= 299) ==> (r matches Err(e) && e@ == "Failed to get scripts list"@),
            200 <= status <= 299 ==> match body {
                Err(e) => r == Err::<(String, Vec<String>), String>(e),
                Ok(t) => if !json_text(t@) {
                    r matches Err(e) && e@ == json_error(t@)
                } else {
                    match json_string_field(t@, "base_dir"@) {
                        None => r matches Err(e) && e@ == "Invalid base_dir"@,
                        Some(base) => match json_array_items(t@, "files"@) {
                            None => r matches Err(e) && e@ == "Invalid files array"@,
                            Some(items) => r matches Ok((b, v)) && b@ == base && strs(v@)
                                == present_strings(items),
                        },
                    }
                },
            },
    {
        if !(status >= 200 && status <= 299) {
            return Err(owned("Failed to get scripts list"));
        }
        let text = match body {
            Ok(t) => t,
            Err(e) => {
                return Err(e);
            },
        };
        let base = match string_field(text.as_str(), "base_dir") {
            Err(e) => {
                return Err(e);
            },
            Ok(None) => {
                return Err(owned("Invalid base_dir"));
            },
            Ok(Some(b)) => b,
        };
        match array_items(text.as_str(), "files") {
            Err(e) => Err(e),
            Ok(None) => Err(owned("Invalid files array")),
            Ok(Some(items)) => Ok((base, keep_strings(items))),
        }
    }
}

} // verus!
