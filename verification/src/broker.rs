//! What the server asks of the broker, what the broker answers, and how both
//! stand on the wire: one line of JSON each.

use vstd::prelude::*;

use crate::paths::value_or;
use crate::text::{chars_of, opt_text, trim_end, trimmed_end};

verus! {

/// What the server asks of the broker.
#[derive(Clone, Debug, PartialEq, Eq)]
pub enum BrokerRequest {
    /// Check a password. Nothing is started.
    Authenticate { username: String, password: String },
    /// Start the user's compositor on a socket of that name, with `payload` in
    /// it.
    SpawnSession {
        session_id: String,
        username: String,
        width: u32,
        height: u32,
        socket_name: String,
        payload: Vec<String>,
    },
    /// Start a program as the user, against a socket that the server owns.
    SpawnPayload {
        session_id: String,
        username: String,
        socket_path: String,
        runtime_dir: String,
        argv: Vec<String>,
        env: Vec<(String, String)>,
    },
    TerminateSession { session_id: String },
}

/// What the broker answers.
#[derive(Debug, PartialEq, Eq)]
pub enum BrokerResponse {
    Authenticate(Result<(), String>),
    SpawnSession(Result<SpawnedSession, String>),
    SpawnPayload(Result<(), String>),
    TerminateSession(Result<(), String>),
}

/// A session that was started.
#[derive(Clone, Debug, PartialEq, Eq)]
pub struct SpawnedSession {
    /// The Wayland socket to connect to.
    pub wayland_socket_path: String,
}

fn copy_result(result: &Result<(), String>) -> (r: Result<(), String>)
    ensures
        r == *result,
{
    match result {
        Ok(u) => Ok(*u),
        Err(e) => Err(e.clone()),
    }
}

impl Clone for BrokerResponse {
    fn clone(&self) -> (r: Self)
        ensures
            r == *self,
    {
        match self {
            BrokerResponse::Authenticate(done) => BrokerResponse::Authenticate(copy_result(done)),
            BrokerResponse::SpawnSession(Ok(s)) => BrokerResponse::SpawnSession(
                Ok(SpawnedSession { wayland_socket_path: s.wayland_socket_path.clone() }),
            ),
            BrokerResponse::SpawnSession(Err(e)) => BrokerResponse::SpawnSession(Err(e.clone())),
            BrokerResponse::SpawnPayload(done) => BrokerResponse::SpawnPayload(copy_result(done)),
            BrokerResponse::TerminateSession(done) => BrokerResponse::TerminateSession(
                copy_result(done),
            ),
        }
    }
}

/// What a request is about, and so its answer.
#[derive(Clone, Copy, Debug, PartialEq, Eq, Structural)]
pub enum Topic {
    Authenticate,
    SpawnSession,
    SpawnPayload,
    TerminateSession,
}

impl BrokerRequest {
    pub open spec fn is_about(self) -> Topic {
        match self {
            BrokerRequest::Authenticate { .. } => Topic::Authenticate,
            BrokerRequest::SpawnSession { .. } => Topic::SpawnSession,
            BrokerRequest::SpawnPayload { .. } => Topic::SpawnPayload,
            BrokerRequest::TerminateSession { .. } => Topic::TerminateSession,
        }
    }

    pub fn topic(&self) -> (t: Topic)
        ensures
            t == self.is_about(),
    {
        match self {
            BrokerRequest::Authenticate { .. } => Topic::Authenticate,
            BrokerRequest::SpawnSession { .. } => Topic::SpawnSession,
            BrokerRequest::SpawnPayload { .. } => Topic::SpawnPayload,
            BrokerRequest::TerminateSession { .. } => Topic::TerminateSession,
        }
    }
}

impl BrokerResponse {
    pub open spec fn is_about(self) -> Topic {
        match self {
            BrokerResponse::Authenticate(_) => Topic::Authenticate,
            BrokerResponse::SpawnSession(_) => Topic::SpawnSession,
            BrokerResponse::SpawnPayload(_) => Topic::SpawnPayload,
            BrokerResponse::TerminateSession(_) => Topic::TerminateSession,
        }
    }

    /// The error that is reported, where one is.
    pub open spec fn error(self) -> Option<Seq<char>> {
        match self {
            BrokerResponse::Authenticate(Err(e)) => Some(e@),
            BrokerResponse::SpawnSession(Err(e)) => Some(e@),
            BrokerResponse::SpawnPayload(Err(e)) => Some(e@),
            BrokerResponse::TerminateSession(Err(e)) => Some(e@),
            _ => None,
        }
    }
}

/// What came of a request: the Wayland socket of a session that was started,
/// nothing in particular, or an error.
pub type Done = Result<Option<String>, String>;

/// The answer to a request on a topic. It is about what was asked, and reports
/// an error exactly where there is one.
pub fn respond(topic: Topic, done: Done) -> (response: BrokerResponse)
    requires
        topic == Topic::SpawnSession ==> !(done matches Ok(None)),
    ensures
        response.is_about() == topic,
        response.error() == match done {
            Err(e) => Some(e@),
            Ok(_) => None,
        },
        response matches BrokerResponse::SpawnSession(Ok(s)) ==> done matches Ok(Some(p))
            && s.wayland_socket_path@ == p@,
{
    match topic {
        Topic::SpawnSession => match done {
            Ok(Some(wayland_socket_path)) => BrokerResponse::SpawnSession(
                Ok(SpawnedSession { wayland_socket_path }),
            ),
            Ok(None) => vstd::pervasive::unreached(),
            Err(e) => BrokerResponse::SpawnSession(Err(e)),
        },
        _ => {
            let plain: Result<(), String> = match done {
                Ok(_) => Ok(()),
                Err(e) => Err(e),
            };
            match topic {
                Topic::Authenticate => BrokerResponse::Authenticate(plain),
                Topic::SpawnPayload => BrokerResponse::SpawnPayload(plain),
                _ => BrokerResponse::TerminateSession(plain),
            }
        },
    }
}

/// A message on the wire: its JSON, and a newline.
pub open spec fn wire_line(json: Seq<char>) -> Seq<char> {
    json.push('\n')
}

/// A message on the wire: its JSON, and a newline.
pub fn write_line(json: &str) -> (line: String)
    ensures
        line@ == wire_line(json@),
{
    let mut line = json.to_string();
    line.push('\n');
    line
}

/// The JSON in a line that was read; none where the peer has closed the
/// connection.
pub fn read_line(line: &str) -> (json: Option<String>)
    ensures
        opt_text(json) == if line@.len() == 0 {
            None
        } else {
            Some(trim_end(line@))
        },
{
    if chars_of(line).len() == 0 {
        None
    } else {
        Some(trimmed_end(line))
    }
}

/// The JSON that was written is what is read, as long as it does not itself end
/// in white space, which JSON as this protocol writes it never does.
pub proof fn law_line_round_trips(json: Seq<char>)
    requires
        json.len() > 0 ==> !crate::text::is_space(json.last()),
    ensures
        trim_end(wire_line(json)) == json,
        wire_line(json).len() > 0,
{
    let line = wire_line(json);
    assert(line.drop_last() =~= json);
    assert(line.last() == '\n');
    assert(trim_end(line) == trim_end(json));
}

/// The answer in a line that was read. A connection that was closed instead is
/// an error.
pub fn read_response(line: &str) -> (r: Result<String, String>)
    ensures
        match r {
            Ok(json) => line@.len() > 0 && json@ == trim_end(line@),
            Err(m) => line@.len() == 0 && m@ == "peer closed"@,
        },
{
    match read_line(line) {
        Some(json) => Ok(json),
        None => Err("peer closed".to_string()),
    }
}

/// Where the broker listens: the value of `REDFOG_BROKER_SOCKET`, or a socket in
/// the default runtime directory.
pub fn socket_path(redfog_broker_socket: Option<String>) -> (path: String)
    ensures
        path@ == match redfog_broker_socket {
            Some(v) => v@,
            None => "/tmp/redfog-runtime/broker.sock"@,
        },
{
    value_or(redfog_broker_socket, "/tmp/redfog-runtime/broker.sock")
}

/// The PAM service that passwords are checked against.
pub const PAM_SERVICE: &'static str = "system-auth";

/// What PAM says of a password.
pub enum Pam {
    /// PAM was not asked: the broker is told to accept everyone.
    Skipped,
    /// The check itself broke, for this reason.
    Panicked(String),
    /// PAM could not be reached, for this reason.
    InitFailed(String),
    /// The password is wrong, or the account is; for this reason.
    Refused(String),
    Accepted,
}

/// Whether a user is who they say.
pub fn authenticate(pam: Pam) -> (r: Result<(), String>)
    ensures
        match pam {
            Pam::Skipped => r is Ok,
            Pam::Accepted => r is Ok,
            Pam::Panicked(e) => r matches Err(m) && m@ == "PAM auth task panicked: "@ + e@,
            Pam::InitFailed(e) => r matches Err(m) && m@ == "failed to init PAM client: "@ + e@,
            Pam::Refused(e) => r matches Err(m) && m@ == "authentication failed: "@ + e@,
        },
{
    match pam {
        Pam::Skipped => Ok(()),
        Pam::Accepted => Ok(()),
        Pam::Panicked(e) => {
            let mut m = "PAM auth task panicked: ".to_string();
            m.append(e.as_str());
            Err(m)
        },
        Pam::InitFailed(e) => {
            let mut m = "failed to init PAM client: ".to_string();
            m.append(e.as_str());
            Err(m)
        },
        Pam::Refused(e) => {
            let mut m = "authentication failed: ".to_string();
            m.append(e.as_str());
            Err(m)
        },
    }
}

/// Every request is about what it asks, every answer about what it answers, and an
/// answer reports an error exactly where it holds one, and that one.
pub proof fn law_answers_are_about_what_they_answer(
    request: BrokerRequest,
    response: BrokerResponse,
)
    ensures
        request is Authenticate <==> request.is_about() is Authenticate,
        request is SpawnSession <==> request.is_about() is SpawnSession,
        request is SpawnPayload <==> request.is_about() is SpawnPayload,
        request is TerminateSession <==> request.is_about() is TerminateSession,
        response is Authenticate <==> response.is_about() is Authenticate,
        response is SpawnSession <==> response.is_about() is SpawnSession,
        response is SpawnPayload <==> response.is_about() is SpawnPayload,
        response is TerminateSession <==> response.is_about() is TerminateSession,
        response matches BrokerResponse::Authenticate(r) ==> response.error() == match r {
            Ok(_) => None,
            Err(e) => Some(e@),
        },
        response matches BrokerResponse::SpawnSession(r) ==> response.error() == match r {
            Ok(_) => None,
            Err(e) => Some(e@),
        },
        response matches BrokerResponse::SpawnPayload(r) ==> response.error() == match r {
            Ok(_) => None,
            Err(e) => Some(e@),
        },
        response matches BrokerResponse::TerminateSession(r) ==> response.error() == match r {
            Ok(_) => None,
            Err(e) => Some(e@),
        },
{
}

/// A message is one line: it ends in a newline, and holds no other where its JSON
/// holds none.
pub proof fn law_a_message_is_one_line(json: Seq<char>)
    requires
        forall|i: int| 0 <= i < json.len() ==> json[i] != '\n',
    ensures
        wire_line(json).last() == '\n',
        wire_line(json).len() == json.len() + 1,
        forall|i: int| 0 <= i < wire_line(json).len() - 1 ==> wire_line(json)[i] != '\n',
{
    let line = wire_line(json);
    assert forall|i: int| 0 <= i < line.len() - 1 implies line[i] != '\n' by {
        assert(line[i] == json[i]);
    }
}

} // verus!
