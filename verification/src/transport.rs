//! How the viewer talks to a running session: the kinds of connection, the
//! commands of the line protocol, and how an HTTP server maps them.
use vstd::prelude::*;
use crate::text::{owned, starts_with, trim_end_char, trim_end_spec, concat, str_eq, trim, trim_spec};

verus! {

/// The kind of connection the viewer has to a session.
#[derive(Debug, PartialEq, Eq, Structural, Clone, Copy)]
pub enum TransportType {
    Http,
    Tcp,
    Ws,
}

/// A command of the session's line protocol.
#[derive(Debug, PartialEq, Eq, Structural, Clone, Copy)]
pub enum Command {
    GetDatastream,
    State,
    Kill,
    PauseState,
    ResumeState,
}

/// The text of a command as sent over TCP, newline included.
pub open spec fn command_line_spec(c: Command) -> Seq<char> {
    match c {
        Command::GetDatastream => "GET_DATASTREAM\n"@,
        Command::State => "STATE\n"@,
        Command::Kill => "KILL\n"@,
        Command::PauseState => "PAUSE_STATE\n"@,
        Command::ResumeState => "RESUME_STATE\n"@,
    }
}

/// The name of a command, without the newline.
pub open spec fn command_name_spec(c: Command) -> Seq<char> {
    match c {
        Command::GetDatastream => "GET_DATASTREAM"@,
        Command::State => "STATE"@,
        Command::Kill => "KILL"@,
        Command::PauseState => "PAUSE_STATE"@,
        Command::ResumeState => "RESUME_STATE"@,
    }
}

/// No two commands share a name.
pub proof fn lemma_command_names_distinct(a: Command, b: Command)
    ensures
        command_name_spec(a) == command_name_spec(b) ==> a == b,
{
    reveal_strlit("GET_DATASTREAM");
    reveal_strlit("STATE");
    reveal_strlit("KILL");
    reveal_strlit("PAUSE_STATE");
    reveal_strlit("RESUME_STATE");
    if command_name_spec(a) == command_name_spec(b) {
        assert(command_name_spec(a).len() == command_name_spec(b).len());
    }
}

impl Command {
    /// The line sent to the session's TCP server.
    pub fn line(&self) -> (r: String)
        ensures
            r@ == command_line_spec(*self),
    {
        match self {
            Command::GetDatastream => owned("GET_DATASTREAM\n"),
            Command::State => owned("STATE\n"),
            Command::Kill => owned("KILL\n"),
            Command::PauseState => owned("PAUSE_STATE\n"),
            Command::ResumeState => owned("RESUME_STATE\n"),
        }
    }

    /// The command whose name is `text` exactly, if any.
    pub fn from_name(text: &str) -> (r: Option<Command>)
        ensures
            match r {
                Some(c) => command_name_spec(c) == text@,
                None => forall|c: Command| command_name_spec(c) != text@,
            },
    {
        if str_eq(text, "GET_DATASTREAM") {
            Some(Command::GetDatastream)
        } else if str_eq(text, "STATE") {
            Some(Command::State)
        } else if str_eq(text, "KILL") {
            Some(Command::Kill)
        } else if str_eq(text, "PAUSE_STATE") {
            Some(Command::PauseState)
        } else if str_eq(text, "RESUME_STATE") {
            Some(Command::ResumeState)
        } else {
            assert forall|c: Command| command_name_spec(c) != text@ by {
                match c {
                    Command::GetDatastream => {},
                    Command::State => {},
                    Command::Kill => {},
                    Command::PauseState => {},
                    Command::ResumeState => {},
                }
            }
            None
        }
    }
}

impl Command {
    /// The command that `text` names, ignoring surrounding whitespace.
    pub fn parse(text: &str) -> (r: Option<Command>)
        ensures
            match r {
                Some(c) => command_name_spec(c) == trim_spec(text@),
                None => forall|c: Command| command_name_spec(c) != trim_spec(text@),
            },
    {
        let t = trim(text);
        Command::from_name(t.as_str())
    }
}

/// The HTTP endpoint of a `rex serve` instance that carries a command.
#[derive(Debug, PartialEq, Eq, Structural, Clone, Copy)]
pub enum Endpoint {
    Datastream,
    Status,
    Kill,
    Pause,
    Continue,
}

pub open spec fn endpoint_of(c: Command) -> Endpoint {
    match c {
        Command::GetDatastream => Endpoint::Datastream,
        Command::State => Endpoint::Status,
        Command::Kill => Endpoint::Kill,
        Command::PauseState => Endpoint::Pause,
        Command::ResumeState => Endpoint::Continue,
    }
}

pub open spec fn endpoint_path_spec(e: Endpoint) -> Seq<char> {
    match e {
        Endpoint::Datastream => "datastream"@,
        Endpoint::Status => "status"@,
        Endpoint::Kill => "kill"@,
        Endpoint::Pause => "pause"@,
        Endpoint::Continue => "continue"@,
    }
}

impl Endpoint {
    /// The endpoint that serves a command.
    pub fn for_command(c: Command) -> (r: Endpoint)
        ensures
            r == endpoint_of(c),
    {
        match c {
            Command::GetDatastream => Endpoint::Datastream,
            Command::State => Endpoint::Status,
            Command::Kill => Endpoint::Kill,
            Command::PauseState => Endpoint::Pause,
            Command::ResumeState => Endpoint::Continue,
        }
    }

    /// The endpoint's path under the server's base URL.
    pub fn path(&self) -> (r: String)
        ensures
            r@ == endpoint_path_spec(*self),
    {
        match self {
            Endpoint::Datastream => owned("datastream"),
            Endpoint::Status => owned("status"),
            Endpoint::Kill => owned("kill"),
            Endpoint::Pause => owned("pause"),
            Endpoint::Continue => owned("continue"),
        }
    }

    /// Whether the endpoint takes a POST: the ones that change the session.
    pub fn is_post(&self) -> (r: bool)
        ensures
            r == (*self == Endpoint::Kill || *self == Endpoint::Pause || *self
                == Endpoint::Continue),
    {
        match self {
            Endpoint::Kill | Endpoint::Pause | Endpoint::Continue => true,
            _ => false,
        }
    }
}

/// Whether `s` starts with `p`.
/// The command that `rex serve` relays to the session over TCP when a
/// request comes to the route `path`: its handlers for `/datastream`,
/// `/status`, `/kill`, `/pause` and `/continue`.
pub open spec fn route_relays(path: Seq<char>) -> Option<Command> {
    if path == "datastream"@ {
        Some(Command::GetDatastream)
    } else if path == "status"@ {
        Some(Command::State)
    } else if path == "kill"@ {
        Some(Command::Kill)
    } else if path == "pause"@ {
        Some(Command::PauseState)
    } else if path == "continue"@ {
        Some(Command::ResumeState)
    } else {
        None
    }
}

/// A command sent over HTTP goes to the route at which the server relays
/// that same command, and distinct commands go to distinct routes.
pub proof fn lemma_endpoint_performs_command(a: Command, b: Command)
    ensures
        route_relays(endpoint_path_spec(endpoint_of(a))) == Some(a),
        a != b ==> endpoint_of(a) != endpoint_of(b),
        a != b ==> endpoint_path_spec(endpoint_of(a)) != endpoint_path_spec(endpoint_of(b)),
{
    reveal_strlit("datastream");
    reveal_strlit("status");
    reveal_strlit("kill");
    reveal_strlit("pause");
    reveal_strlit("continue");
    assert("datastream"@.len() == 10 && "status"@.len() == 6 && "kill"@.len() == 4);
    assert("pause"@.len() == 5 && "continue"@.len() == 8);
    lemma_route_of(a);
    lemma_route_of(b);
}

proof fn lemma_route_of(c: Command)
    ensures
        route_relays(endpoint_path_spec(endpoint_of(c))) == Some(c),
{
    reveal_strlit("datastream");
    reveal_strlit("status");
    reveal_strlit("kill");
    reveal_strlit("pause");
    reveal_strlit("continue");
    assert("datastream"@.len() == 10 && "status"@.len() == 6 && "kill"@.len() == 4);
    assert("pause"@.len() == 5 && "continue"@.len() == 8);
    match c {
        Command::GetDatastream => {},
        Command::State => {
            assert("status"@ != "datastream"@);
        },
        Command::Kill => {
            assert("kill"@ != "datastream"@ && "kill"@ != "status"@);
        },
        Command::PauseState => {
            assert("pause"@ != "datastream"@ && "pause"@ != "status"@ && "pause"@ != "kill"@);
        },
        Command::ResumeState => {
            assert("continue"@ != "datastream"@ && "continue"@ != "status"@ && "continue"@
                != "kill"@ && "continue"@ != "pause"@);
        },
    }
}

pub open spec fn has_prefix(s: Seq<char>, p: Seq<char>) -> bool {
    p.len() <= s.len() && s.take(p.len() as int) == p
}

/// The base URL of a `rex serve` instance given as `addr`: `http://` put in
/// front when no scheme is given, and trailing `/` removed.
pub open spec fn base_url_spec(addr: Seq<char>) -> Seq<char> {
    if !has_prefix(addr, "http://"@) && !has_prefix(addr, "https://"@) {
        trim_end_spec("http://"@ + addr, '/')
    } else {
        trim_end_spec(addr, '/')
    }
}

/// The base URL for an HTTP connection to `addr` (as `HTTPTransport::new`
/// builds it).
pub fn base_url(addr: &str) -> (r: String)
    ensures
        r@ == base_url_spec(addr@),
{
    let full = if !starts_with(addr, "http://") && !starts_with(addr, "https://") {
        concat("http://", addr)
    } else {
        owned(addr)
    };
    trim_end_char(full.as_str(), '/')
}

/// The URL of an endpoint under a base URL.
pub fn endpoint_url(base: &str, e: Endpoint) -> (r: String)
    ensures
        r@ == base@ + seq!['/'] + endpoint_path_spec(e),
{
    let mut r = owned(base);
    crate::text::push_char(&mut r, '/');
    let p = e.path();
    crate::text::push_str(&mut r, p.as_str());
    r
}

/// An HTTP status as the viewer reads it.
#[derive(Debug, PartialEq, Eq, Structural, Clone, Copy)]
pub enum StatusOutcome {
    /// A 2xx status: the body is the answer.
    Success,
    /// 502: the server is up but no session runs.
    NoActiveSession,
    /// Any other status: an error carrying the body.
    Failure,
}

/// How the viewer reads the status of a command's HTTP response.
pub fn classify_status(status: u16) -> (r: StatusOutcome)
    ensures
        r == if status == 502 {
            StatusOutcome::NoActiveSession
        } else if 200 <= status <= 299 {
            StatusOutcome::Success
        } else {
            StatusOutcome::Failure
        },
{
    if status == 502 {
        StatusOutcome::NoActiveSession
    } else if status >= 200 && status <= 299 {
        StatusOutcome::Success
    } else {
        StatusOutcome::Failure
    }
}

} // verus!
