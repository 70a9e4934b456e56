//! Development sessions: the record of the sessions that were run, how a
//! session is found or made for a project, and the decisions of starting a
//! session's host.

use rand::Rng;
use vstd::prelude::*;
use vstd::string::*;
use crate::text::{contains_text, find_text, join, join3, occurs, occurs_at, render_port, decimal_text, same_text};

verus! {

/// Length of a session's ID.
pub const SESSION_ID_LEN: usize = 6;

/// The message bus's host where none is configured.
pub const DEFAULT_NATS_HOST: &'static str = "127.0.0.1";

/// The message bus's port where none is configured.
pub const DEFAULT_NATS_PORT: u16 = 4222;

/// The version of the sessions file's format.
#[derive(Debug, Clone, Copy, PartialEq, Eq)]
pub struct FileVersion {
    pub major: u64,
    pub minor: u64,
    pub patch: u64,
}

/// The version of the format in which sessions are written: 0.1.0.
pub open spec fn sessions_file_version() -> FileVersion {
    FileVersion { major: 0, minor: 1, patch: 0 }
}

/// The version of the format in which sessions are written.
#[verifier::when_used_as_spec(sessions_file_version)]
pub fn current_file_version() -> (version: FileVersion)
    ensures
        version == sessions_file_version(),
{
    FileVersion { major: 0, minor: 1, patch: 0 }
}

/// Metadata of a single development session.
#[derive(Debug, PartialEq, Eq)]
pub struct WashDevSession {
    /// Session ID.
    pub id: String,
    /// Absolute path to the directory in which the session was started.
    pub project_path: String,
    /// The ID of the session's host and the path to its log file; empty until
    /// a host is started.
    pub host_data: Option<(String, String)>,
    /// Whether this session is currently in use.
    pub in_use: bool,
    /// When this session was created, in milliseconds since the epoch.
    pub created_at: i64,
    /// When this session was last used, in milliseconds since the epoch.
    pub last_used_at: i64,
}

impl Clone for WashDevSession {
    fn clone(&self) -> (copy: Self)
        ensures
            copy == *self,
    {
        WashDevSession {
            id: self.id.clone(),
            project_path: self.project_path.clone(),
            host_data: match &self.host_data {
                Some((host_id, log_path)) => Some((host_id.clone(), log_path.clone())),
                None => None,
            },
            in_use: self.in_use,
            created_at: self.created_at,
            last_used_at: self.last_used_at,
        }
    }
}

/// The content of the file that records development sessions.
#[derive(Debug, Clone, PartialEq, Eq)]
pub struct SessionMetadata {
    /// Version of the sessions file.
    pub version: FileVersion,
    /// Sessions that have been run at some point.
    pub sessions: Vec<WashDevSession>,
}

impl Default for SessionMetadata {
    fn default() -> (metadata: Self)
        ensures
            metadata.version == sessions_file_version(),
            metadata.sessions@.len() == 0,
    {
        SessionMetadata { version: current_file_version(), sessions: Vec::new() }
    }
}

/// Whether `c` is an ASCII letter or digit.
pub open spec fn is_alphanumeric(c: char) -> bool {
    ('0' <= c && c <= '9') || ('a' <= c && c <= 'z') || ('A' <= c && c <= 'Z')
}

/// `rand::thread_rng` sampled `len` times with
/// `rand::distributions::Alphanumeric`: a text of `len` ASCII letters and
/// digits, each drawn at random. The generator is seeded by the system, and
/// fails only where the system gives it no seed.
#[verifier::external_body]
pub(crate) fn random_alphanumeric(len: usize) -> (text: String)
    ensures
        text@.len() == len,
        forall|i: int| 0 <= i < text@.len() ==> is_alphanumeric(#[trigger] text@[i]),
{
    rand::thread_rng().sample_iter(&rand::distributions::Alphanumeric).take(len).map(
        char::from,
    ).collect()
}

/// Whether a session is free for the project at `project_path`: it belongs to
/// that project and is not in use.
pub open spec fn is_free_for(session: WashDevSession, project_path: Seq<char>) -> bool {
    session.project_path@ == project_path && !session.in_use
}

/// Whether `at` is the position of the first session that is free for the
/// project.
pub open spec fn first_free_at(
    sessions: Seq<WashDevSession>,
    project_path: Seq<char>,
    at: int,
) -> bool {
    &&& 0 <= at < sessions.len()
    &&& is_free_for(sessions[at], project_path)
    &&& forall|j: int| 0 <= j < at ==> !is_free_for(#[trigger] sessions[j], project_path)
}

/// Whether no session is free for the project.
pub open spec fn none_free(sessions: Seq<WashDevSession>, project_path: Seq<char>) -> bool {
    forall|j: int| 0 <= j < sessions.len() ==> !is_free_for(#[trigger] sessions[j], project_path)
}

/// Whether `at` is the position of the first session with the ID `id`.
pub open spec fn first_with_id_at(sessions: Seq<WashDevSession>, id: Seq<char>, at: int) -> bool {
    &&& 0 <= at < sessions.len()
    &&& sessions[at].id@ == id
    &&& forall|j: int| 0 <= j < at ==> (#[trigger] sessions[j]).id@ != id
}

impl SessionMetadata {
    /// The position of the first session that is free for the project at
    /// `project_path`, if one is.
    pub fn find_free_session(&self, project_path: &str) -> (found: Option<usize>)
        ensures
            match found {
                Some(at) => first_free_at(self.sessions@, project_path@, at as int),
                None => none_free(self.sessions@, project_path@),
            },
    {
        let mut i: usize = 0;
        while i < self.sessions.len()
            invariant
                i <= self.sessions@.len(),
                forall|j: int|
                    0 <= j < i ==> !is_free_for(#[trigger] self.sessions@[j], project_path@),
            decreases self.sessions@.len() - i,
        {
            if same_text(self.sessions[i].project_path.as_str(), project_path)
                && !self.sessions[i].in_use {
                return Some(i);
            }
            i = i + 1;
        }
        None
    }

    /// The session for the project at `project_path`: the first one that is
    /// free for it, or, where none is, a new one that is added to the record.
    /// The new session has the ID `fresh_id`, is in use, has no host, and was
    /// created and last used at `now`.
    pub fn session_for(&mut self, project_path: &str, fresh_id: String, now: i64) -> (session:
        WashDevSession)
        ensures
            final(self).version == old(self).version,
            match old(self).find_free(project_path@) {
                Some(at) => session == old(self).sessions@[at] && final(self).sessions@ == old(
                    self,
                ).sessions@,
                None => session.id == fresh_id && session.project_path@ == project_path@
                    && session.host_data is None && session.in_use && session.created_at == now
                    && session.last_used_at == now && final(self).sessions@ == old(
                    self,
                ).sessions@.push(session),
            },
    {
        match self.find_free_session(project_path) {
            Some(at) => {
                proof {
                    self.lemma_find_free(project_path@, at as int);
                }
                self.sessions[at].clone()
            },
            None => {
                let session = WashDevSession {
                    id: fresh_id,
                    project_path: project_path.to_owned(),
                    host_data: None,
                    in_use: true,
                    created_at: now,
                    last_used_at: now,
                };
                self.sessions.push(session.clone());
                session
            },
        }
    }

    /// The position of the first session that is free for the project, if one
    /// is.
    pub open spec fn find_free(&self, project_path: Seq<char>) -> Option<int> {
        if none_free(self.sessions@, project_path) {
            None
        } else {
            Some(choose|at: int| first_free_at(self.sessions@, project_path, at))
        }
    }

    /// There is at most one first free session.
    pub proof fn lemma_find_free(&self, project_path: Seq<char>, at: int)
        requires
            first_free_at(self.sessions@, project_path, at),
        ensures
            self.find_free(project_path) == Some(at),
    {
        let chosen = choose|at: int| first_free_at(self.sessions@, project_path, at);
        assert(first_free_at(self.sessions@, project_path, chosen));
        if chosen < at {
            assert(!is_free_for(self.sessions@[chosen], project_path));
        }
        if at < chosen {
            assert(!is_free_for(self.sessions@[at], project_path));
        }
    }

    /// Puts `session` in the place of the first recorded session with its ID,
    /// and says whether there was one. A session that is not recorded is not
    /// added.
    pub fn update_session(&mut self, session: &WashDevSession) -> (updated: bool)
        ensures
            final(self).version == old(self).version,
            updated ==> exists|at: int|
                first_with_id_at(old(self).sessions@, session.id@, at) && final(self).sessions@
                    == old(self).sessions@.update(at, *session),
            !updated ==> final(self).sessions@ == old(self).sessions@ && forall|j: int|
                0 <= j < old(self).sessions@.len() ==> (#[trigger] old(self).sessions@[j]).id@
                    != session.id@,
    {
        let mut i: usize = 0;
        while i < self.sessions.len()
            invariant
                i <= self.sessions@.len(),
                self.sessions@ == old(self).sessions@,
                self.version == old(self).version,
                forall|j: int| 0 <= j < i ==> (#[trigger] self.sessions@[j]).id@ != session.id@,
            decreases self.sessions@.len() - i,
        {
            if same_text(self.sessions[i].id.as_str(), session.id.as_str()) {
                assert(first_with_id_at(old(self).sessions@, session.id@, i as int));
                self.sessions.set(i, session.clone());
                return true;
            }
            i = i + 1;
        }
        false
    }
}

impl WashDevSession {
    /// The session for the project at `project_path`: one of the record that
    /// is free for it, or a new one with a random ID, which is added to the
    /// record.
    pub fn from_sessions(metadata: &mut SessionMetadata, project_path: &str, now: i64) -> (session:
        WashDevSession)
        ensures
            final(metadata).version == old(metadata).version,
            match old(metadata).find_free(project_path@) {
                Some(at) => session == old(metadata).sessions@[at] && final(metadata).sessions@
                    == old(metadata).sessions@,
                None => session.id@.len() == SESSION_ID_LEN && (forall|i: int|
                    0 <= i < session.id@.len() ==> is_alphanumeric(#[trigger] session.id@[i]))
                    && session.project_path@ == project_path@ && session.host_data is None
                    && session.in_use && session.created_at == now && session.last_used_at == now
                    && final(metadata).sessions@ == old(metadata).sessions@.push(session),
            },
    {
        let fresh_id = random_alphanumeric(SESSION_ID_LEN);
        metadata.session_for(project_path, fresh_id, now)
    }

    /// Whether the session has yet to start a host.
    pub fn needs_host(&self) -> (needed: bool)
        ensures
            needed == self.host_data is None,
    {
        self.host_data.is_none()
    }

    /// Records the host that was started for the session.
    pub fn set_host(&mut self, host_id: String, log_path: String)
        ensures
            final(self).host_data == Some((host_id, log_path)),
            final(self).id == old(self).id,
            final(self).project_path == old(self).project_path,
            final(self).in_use == old(self).in_use,
            final(self).created_at == old(self).created_at,
            final(self).last_used_at == old(self).last_used_at,
    {
        self.host_data = Some((host_id, log_path));
    }
}

/// The host of the message bus: the one set for the bus, else the one set for
/// the control interface, else the default one.
pub fn nats_host(bus_host: Option<String>, ctl_host: Option<String>) -> (host: String)
    ensures
        host@ == match bus_host {
            Some(h) => h@,
            None => match ctl_host {
                Some(h) => h@,
                None => DEFAULT_NATS_HOST@,
            },
        },
{
    match bus_host {
        Some(host) => host,
        None => match ctl_host {
            Some(host) => host,
            None => DEFAULT_NATS_HOST.to_owned(),
        },
    }
}

/// The message bus's port: the one set for the bus, else the one set for
/// the control interface, else the default one.
pub fn nats_port(bus_port: Option<u16>, ctl_port: Option<u16>) -> (port: u16)
    ensures
        port == match bus_port {
            Some(p) => p,
            None => match ctl_port {
                Some(p) => p,
                None => DEFAULT_NATS_PORT,
            },
        },
{
    match bus_port {
        Some(port) => port,
        None => match ctl_port {
            Some(port) => port,
            None => DEFAULT_NATS_PORT,
        },
    }
}

/// The address at which the message bus listens: host, `:`, port.
pub fn nats_listen_address(host: &str, port: u16) -> (address: String)
    ensures
        address@ == host@ + ":"@ + decimal_text(port as nat),
{
    join3(host, ":", render_port(port).as_str())
}

/// The name of the directory in which the message bus on `port` keeps its
/// streams.
pub fn jetstream_dir_name(port: u16) -> (name: String)
    ensures
        name@ == "wash-jetstream-"@ + decimal_text(port as nat),
{
    join("wash-jetstream-", render_port(port).as_str())
}

/// A process that a session's host needs.
#[derive(Clone, Copy, Debug, PartialEq, Eq)]
pub enum Service {
    Nats,
    Wadm,
    NatsKvSecrets,
    Wasmcloud,
}

/// What a service that failed to start means for the session.
#[derive(Debug, Clone, PartialEq, Eq)]
pub enum StartFailure {
    /// The service runs already; the session goes on without a process of its
    /// own for it.
    AlreadyRunning,
    /// The session cannot start; this is the error.
    Fatal(String),
}

/// What is reported when a service could not be started; `detail` is the
/// error of the attempt.
pub open spec fn start_failure_text(service: Service, detail: Seq<char>) -> Seq<char> {
    match service {
        Service::Nats => "failed to start NATS server for wash dev: "@ + detail,
        Service::Wadm => "failed to start wadm for wash dev: "@ + detail,
        Service::NatsKvSecrets => "failed to start nats-kv-secrets for wash dev: "@ + detail,
        Service::Wasmcloud => "failed to start wasmCloud instance: "@ + detail,
    }
}

/// What a service that failed to start means for the session. A supporting
/// service whose error says that it is `already listening` runs already; every
/// other failure ends the start.
pub fn classify_start_failure(service: Service, detail: &str) -> (failure: StartFailure)
    ensures
        match failure {
            StartFailure::AlreadyRunning => service != Service::Wasmcloud && occurs(
                detail@,
                "already listening"@,
            ),
            StartFailure::Fatal(text) => (service == Service::Wasmcloud || !occurs(
                detail@,
                "already listening"@,
            )) && text@ == start_failure_text(service, detail@),
        },
{
    match service {
        Service::Wasmcloud => StartFailure::Fatal(
            join("failed to start wasmCloud instance: ", detail),
        ),
        _ => {
            if contains_text(detail, "already listening") {
                StartFailure::AlreadyRunning
            } else {
                StartFailure::Fatal(
                    match service {
                        Service::Nats => join("failed to start NATS server for wash dev: ", detail),
                        Service::Wadm => join("failed to start wadm for wash dev: ", detail),
                        _ => join("failed to start nats-kv-secrets for wash dev: ", detail),
                    },
                )
            }
        },
    }
}

/// What a line of the host's log says of the host's ID.
#[derive(Debug, Clone, PartialEq, Eq)]
pub enum HostIdLine {
    /// The line does not name the host's ID.
    Absent,
    /// The line names the ID, but what follows the mark cannot be cut: nothing
    /// follows it, or what follows does not end in an ASCII character.
    Uncut,
    /// The host's ID.
    Found(String),
}

/// What follows the first `host_id="` of a line.
pub open spec fn after_mark(line: Seq<char>, at: int) -> Seq<char> {
    line.subrange(at + "host_id=\""@.len(), line.len() as int)
}

/// Reads the host's ID from a line of the host's log: the text that follows
/// the first `host_id="` of the line, without its last character, which closes
/// the quotation.
pub fn host_id_in_line(line: &str) -> (found: HostIdLine)
    ensures
        match found {
            HostIdLine::Absent => !occurs(line@, "host_id=\""@),
            HostIdLine::Uncut => exists|at: int|
                occurs_at(line@, "host_id=\""@, at) && (forall|earlier: int|
                    0 <= earlier < at ==> !occurs_at(line@, "host_id=\""@, earlier)) && (
                #[trigger] after_mark(line@, at).len() == 0 || after_mark(line@, at).last() as u32
                    >= 128),
            HostIdLine::Found(id) => exists|at: int|
                occurs_at(line@, "host_id=\""@, at) && (forall|earlier: int|
                    0 <= earlier < at ==> !occurs_at(line@, "host_id=\""@, earlier))
                    && #[trigger] after_mark(line@, at).len() > 0 && (after_mark(
                    line@,
                    at,
                ).last() as u32) < 128 && id@ == after_mark(line@, at).drop_last(),
        },
{
    let mark = "host_id=\"";
    match find_text(line, mark) {
        None => HostIdLine::Absent,
        Some(at) => {
            let len = line.unicode_len();
            let mark_len = mark.unicode_len();
            let start = at + mark_len;
            let rest = line.substring_char(start, len);
            assert(rest@ == after_mark(line@, at as int));
            let rest_len = len - start;
            if rest_len == 0 {
                return HostIdLine::Uncut;
            }
            let closing = rest.get_char(rest_len - 1);
            if closing as u32 >= 128 {
                return HostIdLine::Uncut;
            }
            let id = rest.substring_char(0, rest_len - 1);
            HostIdLine::Found(id.to_owned())
        },
    }
}

} // verus!
