//! What the HTTP interface answers.

use crate::server::chat::{SessionInfo, StartChatError};
use crate::server::resume::ClaudeSessionInfo;
use crate::text::{opt_text, same_text};
use vstd::prelude::*;
use vstd::string::*;

verus! {

/// The answer to a request that succeeded.
#[derive(Clone, Debug, PartialEq)]
pub struct ApiOkResponse<T> {
    pub code: OkCode,
    pub data: T,
}

/// The code of an answer to a request that succeeded: `ok`.
#[derive(Clone, Copy, Debug, PartialEq, Eq, Structural)]
pub struct OkCode;

impl OkCode {
    pub fn as_str(&self) -> (r: &'static str)
        ensures
            r@ == "ok"@,
    {
        "ok"
    }
}

impl<T> ApiOkResponse<T> {
    pub fn new(data: T) -> (r: Self)
        ensures
            r.data == data,
    {
        ApiOkResponse { code: OkCode, data }
    }
}

/// The answer to a request that failed.
#[derive(Clone, Debug, PartialEq)]
pub struct ApiErrorResponse {
    pub code: String,
    pub err: Option<String>,
}

/// An error that the caller is expected to handle.
#[derive(Clone, Debug, PartialEq)]
pub struct BizError {
    pub code: String,
    pub err: Option<String>,
}

/// An error of the HTTP interface.
#[derive(Clone, Debug, PartialEq)]
pub enum ApiError {
    /// A system error, with its text.
    Anyhow(String),
    BizError(BizError),
}

/// The error text with one more piece of context behind it.
pub open spec fn with_context_text(err: Option<Seq<char>>, context: Seq<char>) -> Seq<char> {
    match err {
        Some(e) => e + ": "@ + context,
        None => context,
    }
}

/// The code of the error that says that a chat is not registered.
pub open spec fn chat_not_registered_code() -> Seq<char> {
    "chat/not-registerd"@
}

/// The code of the error that says that no settings profile has the name
/// asked for.
pub open spec fn config_not_found_code() -> Seq<char> {
    "chat/config-not-found"@
}

/// The code of the error that says that a session is neither alive nor on
/// disk.
pub open spec fn session_not_found_code() -> Seq<char> {
    "chat/session-not-found"@
}

impl BizError {
    /// The error with the code `code` and no text.
    pub fn new(code: &str) -> (r: Self)
        ensures
            r.code@ == code@,
            r.err is None,
    {
        BizError { code: code.to_owned(), err: None }
    }

    /// The error with `context` behind its text.
    pub fn with_context(self, context: &str) -> (r: Self)
        ensures
            r.code == self.code,
            opt_text(r.err) == Some(with_context_text(opt_text(self.err), context@)),
    {
        let text = match self.err {
            Some(mut e) => {
                e.append(": ");
                e.append(context);
                e
            },
            None => context.to_owned(),
        };
        BizError { code: self.code, err: Some(text) }
    }

    /// The error that the HTTP interface reports for `e`.
    pub fn from_start_chat_error(e: StartChatError) -> (r: Self)
        ensures
            match e {
                StartChatError::ChatNotRegistered => r.code@ == chat_not_registered_code()
                    && r.err is None,
                StartChatError::ConfigNotFound(name) => r.code@ == config_not_found_code()
                    && opt_text(r.err) == Some(name@),
                StartChatError::SessionNotFound => r.code@ == session_not_found_code() && r.err
                    is None,
            },
    {
        match e {
            StartChatError::ChatNotRegistered => BizError::new("chat/not-registerd"),
            StartChatError::ConfigNotFound(name) => BizError::new(
                "chat/config-not-found",
            ).with_context(name.as_str()),
            StartChatError::SessionNotFound => BizError::new("chat/session-not-found"),
        }
    }
}

impl ApiError {
    /// The HTTP status of the error: 500 for a system error, 400 for an
    /// error that the caller is expected to handle.
    pub fn status_code(&self) -> (r: u16)
        ensures
            r == (match self {
                ApiError::Anyhow(_) => 500u16,
                ApiError::BizError(_) => 400u16,
            }),
    {
        match self {
            ApiError::Anyhow(_) => 500,
            ApiError::BizError(_) => 400,
        }
    }

    /// The answer that reports the error.
    pub fn error_response(&self) -> (r: ApiErrorResponse)
        ensures
            match self {
                ApiError::Anyhow(e) => r.code@ == "SYSTEM_ERROR"@ && opt_text(r.err) == Some(e@),
                ApiError::BizError(b) => r.code@ == b.code@ && opt_text(r.err) == opt_text(b.err),
            },
    {
        match self {
            ApiError::Anyhow(e) => ApiErrorResponse {
                code: "SYSTEM_ERROR".to_owned(),
                err: Some(e.clone()),
            },
            ApiError::BizError(b) => ApiErrorResponse {
                code: b.code.clone(),
                err: match &b.err {
                    Some(e) => Some(e.clone()),
                    None => None,
                },
            },
        }
    }
}

/// Which sessions a caller asks about.
#[derive(Clone, Debug, PartialEq)]
pub struct LoadSessionInfoOptions {
    pub work_dir: String,
}

/// Which directory a caller wants listed.
#[derive(Clone, Debug, PartialEq)]
pub struct LsParams {
    pub dir: String,
}

/// The name of a directory.
#[derive(Clone, Debug, PartialEq)]
pub struct FileName(pub String);

/// Whose files a caller wants listed.
#[derive(Clone, Debug, PartialEq)]
pub struct WorkspaceFilesParams {
    pub work_dir: String,
}

/// Whose changes a caller wants to be told of.
#[derive(Clone, Debug, PartialEq)]
pub struct WorkDirParam {
    pub work_dir: String,
}

/// A session of a working directory, alive or on disk.
#[derive(Clone, Debug, PartialEq)]
pub struct UnifiedSessionInfo {
    pub session_id: String,
    pub last_user_input: String,
    /// An RFC 3339 time.
    pub last_activity: String,
    pub is_active: bool,
}

/// The time `millis` milliseconds after the epoch as an RFC 3339 text;
/// `None` where the calendar does not reach that far.
pub uninterp spec fn rfc3339_text(millis: i64) -> Option<Seq<char>>;

/// Calls `chrono::DateTime::from_timestamp_millis` and, on the time it
/// makes, `to_rfc3339`.
#[verifier::external_body]
fn format_timestamp(millis: i64) -> (r: Option<String>)
    ensures
        opt_text(r) == rfc3339_text(millis),
{
    chrono::DateTime::from_timestamp_millis(millis).map(|t| t.to_rfc3339())
}

/// Whether some live session has the name `id`.
pub open spec fn is_alive(active: Seq<SessionInfo>, id: Seq<char>) -> bool {
    exists|j: int| 0 <= j < active.len() && (#[trigger] active[j]).session_id@ == id
}

/// Whether some live session has the name `id`.
fn find_alive(active: &Vec<SessionInfo>, id: &str) -> (r: bool)
    ensures
        r == is_alive(active@, id@),
{
    let mut j: usize = 0;
    while j < active.len()
        invariant
            j <= active.len(),
            forall|k: int| 0 <= k < j ==> (#[trigger] active@[k]).session_id@ != id@,
        decreases active.len() - j,
    {
        if same_text(active[j].session_id.as_str(), id) {
            assert(active@[j as int].session_id@ == id@);
            return true;
        }
        j = j + 1;
    }
    false
}

/// Whether `u` describes the session on disk `f`, given the live sessions
/// `active`.
pub open spec fn unifies(u: UnifiedSessionInfo, f: ClaudeSessionInfo, active: Seq<SessionInfo>) -> bool {
    &&& u.session_id == f.session_id
    &&& u.last_user_input == f.last_user_input
    &&& u.last_activity@ == (match rfc3339_text(f.last_active) {
        Some(t) => t,
        None => seq![],
    })
    &&& u.is_active == is_alive(active, f.session_id@)
}

/// The sessions of a working directory: each session on disk, in order,
/// with the word whether it is alive.
pub fn session_list(file_sessions: Vec<ClaudeSessionInfo>, active: &Vec<SessionInfo>) -> (r: Vec<
    UnifiedSessionInfo,
>)
    ensures
        r@.len() == file_sessions@.len(),
        forall|i: int|
            0 <= i < r@.len() ==> unifies(#[trigger] r@[i], file_sessions@[i], active@),
{
    let mut out: Vec<UnifiedSessionInfo> = Vec::new();
    let mut rest = file_sessions;
    let ghost all = rest@;
    let ghost mut taken: int = 0;
    while rest.len() > 0
        invariant
            0 <= taken,
            taken + rest@.len() == all.len(),
            forall|j: int| 0 <= j < rest@.len() ==> rest@[j] == all[taken + j],
            out@.len() == taken,
            forall|i: int| 0 <= i < out@.len() ==> unifies(#[trigger] out@[i], all[i], active@),
        decreases rest.len(),
    {
        assert(rest@[0] == all[taken + 0]);
        let ghost before = rest@;
        let f = rest.remove(0);
        assert(forall|j: int| 0 <= j < rest@.len() ==> rest@[j] == before[j + 1]);
        let is_active = find_alive(active, f.session_id.as_str());
        let last_activity = match format_timestamp(f.last_active) {
            Some(t) => t,
            None => String::new(),
        };
        out.push(
            UnifiedSessionInfo {
                session_id: f.session_id,
                last_user_input: f.last_user_input,
                last_activity,
                is_active,
            },
        );
        proof {
            taken = taken + 1;
        }
    }
    out
}

/// Whether the arguments of the program ask for its version: the first
/// argument behind the program's name is `--version` or `version`.
pub fn version_command(args: &Vec<String>) -> (r: bool)
    ensures
        r == (args@.len() > 1 && (args@[1]@ == "--version"@ || args@[1]@ == "version"@)),
{
    if args.len() > 1 {
        same_text(args[1].as_str(), "--version") || same_text(args[1].as_str(), "version")
    } else {
        false
    }
}

} // verus!
