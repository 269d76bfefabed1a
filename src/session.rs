//! The per-request session: which working tree is open and whether encryption is on,
//! and the fixed order in which each request drives validation, storage and
//! synchronisation. Each request runs as a machine: `start` gives the first action,
//! the caller performs it and hands back what happened, and `step` gives the next,
//! until an action is a reply.
use vstd::prelude::*;
use crate::storage::{
    BookmarksData,
    ValidationError,
    validation_of,
    commit_message_text,
    bookmarks_in,
};

verus! {

/// The per-process session state.
pub struct HostConfig {
    /// The open working tree, absent until an init succeeds.
    pub repo_path: Option<String>,
    pub encryption_enabled: bool,
}

/// Not initialized: no working tree is open.
#[derive(Debug, PartialEq, Eq, Structural, Clone, Copy)]
pub struct NotInitialized;

/// An inbound request.
#[derive(Debug)]
pub enum Request {
    Init { repo_path: Option<String>, repo_url: Option<String> },
    Write,
    Read,
    Sync,
    Status,
    EnableEncryption,
    DisableEncryption,
    EncryptionStatus,
}

/// What a failed request reports.
#[derive(Debug, PartialEq, Eq, Structural, Clone, Copy)]
pub enum ErrorCode {
    NotInitialized,
    InvalidPath,
    Clone,
    Init,
    Parse,
    Validate,
    WriteFile,
    OpenRepo,
    GitAdd,
    GitCommit,
    GitPush,
    NoRemote,
    GitPull,
    ReadFile,
    /// The file is encrypted but encryption is not enabled.
    EncryptedButDisabled,
    PlatformNotSupported,
    KeyGen,
    ReadForEncrypt,
    Encrypt,
    CheckEncryption,
    Decrypt,
    WriteDecrypt,
    /// The caller answered an action with an event of the wrong kind.
    UnexpectedEvent,
}

/// What an error carries besides its code.
#[derive(Debug)]
pub enum Detail {
    Nothing,
    /// The words of the failed outside step.
    Text(String),
    /// The rule the document broke.
    Invalid(ValidationError),
}

/// What a successful request did.
#[derive(Debug)]
pub enum Outcome {
    Initialized(String),
    Saved,
    NoFile,
    Loaded,
    Synced,
    NotInitialized,
    StatusRetrieved,
    EncryptionEnabled,
    EncryptionDisabled,
    EncryptionStatusRetrieved,
}

/// The data a successful request returns.
#[derive(Debug)]
pub enum ReplyData {
    Nothing,
    Document(BookmarksData),
    NotInitialized,
    Status {
        repo_path: String,
        is_clean: bool,
        has_remote: bool,
        last_commit: Option<String>,
        encryption_enabled: bool,
    },
    EncryptionFlag(bool),
    EncryptionStatus { encryption_enabled: bool, platform_supported: bool },
}

/// The uniform result of a request.
#[derive(Debug)]
pub enum Reply {
    Success { outcome: Outcome, data: ReplyData },
    Error { code: ErrorCode, detail: Detail },
}

/// Outside work the caller performs next; each names the working tree it is about.
#[derive(Debug)]
pub enum Action {
    /// Confine the requested path to the allowed base; answered by `Path` or `Failed`.
    ResolvePath(String),
    CloneRepo { url: String, path: String },
    /// Open the working tree, initializing it if absent.
    OpenRepo(String),
    /// Decode the document that came with the request; answered by `Parsed`.
    ParseDocument,
    /// Whether the document file exists; answered by `Answer`.
    CheckFileExists(String),
    /// Whether the document file is an encrypted envelope; answered by `Answer`.
    ProbeEncryption(String),
    /// Read and decode the document file, opening the envelope where `decrypt` is set.
    ReadDocument { repo: String, decrypt: bool },
    /// Replace the document file atomically, sealed in an envelope where `encrypt` is set.
    WriteDocument { repo: String, encrypt: bool, doc: BookmarksData },
    StageDocument(String),
    Commit { repo: String, message: String },
    /// Whether the remote "origin" is configured; answered by `Answer`.
    HasRemote(String),
    /// Push branch "main" to "origin".
    Push(String),
    /// Pull branch "main" from "origin".
    Pull(String),
    /// Cleanliness, remote and last commit message of the tree; answered by `Status`.
    QueryStatus(String),
    /// Generate a key and keep it in the secret store.
    GenerateKey,
    /// Delete the key from the secret store.
    DeleteKey,
    /// Whether this platform has a secret store; answered by `Answer`.
    CheckPlatform,
    Reply(Reply),
}

/// What came of the last action.
#[derive(Debug)]
pub enum Event {
    Done,
    Failed(String),
    Answer(bool),
    Path(String),
    Parsed(BookmarksData),
    Status { is_clean: bool, has_remote: bool, last_commit: Option<String> },
}

/// Where a request stands between two actions.
#[derive(Debug)]
pub enum Stage {
    Done,
    InitResolve { url: Option<String> },
    InitOpen { path: String, cloning: bool },
    WriteParse { repo: String },
    WriteFile { repo: String, message: String },
    WriteOpen { repo: String, message: String },
    WriteStage { repo: String, message: String },
    WriteCommit { repo: String },
    WriteRemote { repo: String },
    WritePush,
    ReadExists { repo: String },
    ReadProbe { repo: String },
    ReadFile,
    SyncOpen { repo: String },
    SyncRemote { repo: String },
    SyncPull,
    StatusOpen { repo: String },
    StatusQuery { repo: String },
    EnablePlatform,
    EnableKey,
    EnableExists { repo: String },
    EnableProbe { repo: String },
    EnableRead { repo: String },
    EnableWrite,
    DisablePlatform,
    DisableExists { repo: String },
    DisableProbe { repo: String },
    DisableRead { repo: String },
    DisableWrite,
    DisableDelete,
    EncryptionStatusPlatform,
}

pub open spec fn default_repo() -> Seq<char> {
    seq!['d', 'e', 'f', 'a', 'u', 'l', 't', '-', 'r', 'e', 'p', 'o']
}

/// The request ends with an error reply.
pub open spec fn fails(st: Stage, a: Action, code: ErrorCode, d: Detail) -> bool {
    st is Done && a == Action::Reply(Reply::Error { code, detail: d })
}

/// The request ends with a success reply.
pub open spec fn succeeds(st: Stage, a: Action, outcome: Outcome, data: ReplyData) -> bool {
    st is Done && a == Action::Reply(Reply::Success { outcome, data })
}

/// After an action that answers `Done`: go on as `next` says, or end with `code`.
pub open spec fn after_work(ev: Event, code: ErrorCode, next: bool, st: Stage, a: Action) -> bool {
    match ev {
        Event::Done => next,
        Event::Failed(e) => fails(st, a, code, Detail::Text(e)),
        _ => fails(st, a, ErrorCode::UnexpectedEvent, Detail::Nothing),
    }
}

/// After an action that answers `Answer`: go on as `yes` or `no` says, or end with `code`.
pub open spec fn after_answer(
    ev: Event,
    code: ErrorCode,
    yes: bool,
    no: bool,
    st: Stage,
    a: Action,
) -> bool {
    match ev {
        Event::Answer(b) => if b {
            yes
        } else {
            no
        },
        Event::Failed(e) => fails(st, a, code, Detail::Text(e)),
        _ => fails(st, a, ErrorCode::UnexpectedEvent, Detail::Nothing),
    }
}

pub open spec fn same_session(s: HostConfig, t: HostConfig) -> bool {
    s.repo_path == t.repo_path && s.encryption_enabled == t.encryption_enabled
}

/// The first action of each request.
pub open spec fn opening(s: HostConfig, req: Request, t: HostConfig, st: Stage, a: Action) -> bool {
    same_session(s, t) && match req {
        Request::Init { repo_path, repo_url } => st == Stage::InitResolve { url: repo_url }
            && match a {
            Action::ResolvePath(p) => match repo_path {
                Some(q) => p == q,
                None => p@ == default_repo(),
            },
            _ => false,
        },
        Request::EnableEncryption => st is EnablePlatform && a is CheckPlatform,
        Request::DisableEncryption => st is DisablePlatform && a is CheckPlatform,
        Request::EncryptionStatus => st is EncryptionStatusPlatform && a is CheckPlatform,
        Request::Status => match s.repo_path {
            None => succeeds(st, a, Outcome::NotInitialized, ReplyData::NotInitialized),
            Some(r) => st == Stage::StatusOpen { repo: r } && a == Action::OpenRepo(r),
        },
        _ => match s.repo_path {
            None => fails(st, a, ErrorCode::NotInitialized, Detail::Nothing),
            Some(r) => match req {
                Request::Write => st == Stage::WriteParse { repo: r } && a is ParseDocument,
                Request::Read => st == Stage::ReadExists { repo: r } && a
                    == Action::CheckFileExists(r),
                Request::Sync => st == Stage::SyncOpen { repo: r } && a == Action::OpenRepo(r),
                _ => false,
            },
        },
    }
}

/// Reading or re-encoding a decoded document: it must pass validation first.
pub open spec fn on_parsed(
    ev: Event,
    code: ErrorCode,
    valid: spec_fn(BookmarksData) -> bool,
    st: Stage,
    a: Action,
) -> bool {
    match ev {
        Event::Parsed(doc) => match validation_of(doc) {
            Err(v) => fails(st, a, code, Detail::Invalid(v)),
            Ok(()) => valid(doc),
        },
        Event::Failed(e) => fails(st, a, code, Detail::Text(e)),
        _ => fails(st, a, ErrorCode::UnexpectedEvent, Detail::Nothing),
    }
}

/// The steps of the init requests.
pub open spec fn init_transition(
    s: HostConfig,
    stage: Stage,
    ev: Event,
    t: HostConfig,
    st: Stage,
    a: Action,
) -> bool {
    let enc = s.encryption_enabled;
    match stage {
        Stage::InitResolve { url } => same_session(s, t) && match ev {
            Event::Path(p) => match url {
                Some(u) => st == Stage::InitOpen { path: p, cloning: true } && a
                    == Action::CloneRepo { url: u, path: p },
                None => st == Stage::InitOpen { path: p, cloning: false } && a
                    == Action::OpenRepo(p),
            },
            Event::Failed(e) => fails(st, a, ErrorCode::InvalidPath, Detail::Text(e)),
            _ => fails(st, a, ErrorCode::UnexpectedEvent, Detail::Nothing),
        },
        Stage::InitOpen { path, cloning } => match ev {
            Event::Done => t.repo_path == Some(path) && t.encryption_enabled == enc
                && succeeds(st, a, Outcome::Initialized(path), ReplyData::Nothing),
            _ => same_session(s, t) && after_work(
                ev,
                if cloning {
                    ErrorCode::Clone
                } else {
                    ErrorCode::Init
                },
                false,
                st,
                a,
            ),
        },
        _ => false,
    }
}

/// The steps of the write requests.
pub open spec fn write_transition(
    s: HostConfig,
    stage: Stage,
    ev: Event,
    t: HostConfig,
    st: Stage,
    a: Action,
) -> bool {
    let enc = s.encryption_enabled;
    match stage {
        Stage::WriteParse { repo } => same_session(s, t) && match ev {
            Event::Failed(e) => fails(st, a, ErrorCode::Parse, Detail::Text(e)),
            _ => on_parsed(
                ev,
                ErrorCode::Validate,
                |doc: BookmarksData|
                    match st {
                        Stage::WriteFile { repo: r, message } => r == repo && message@
                            == commit_message_text(
                            bookmarks_in(doc.data@).len(),
                            doc.tag_seq().len(),
                        ) && a == Action::WriteDocument { repo, encrypt: enc, doc },
                        _ => false,
                    },
                st,
                a,
            ),
        },
        Stage::WriteFile { repo, message } => same_session(s, t) && after_work(
            ev,
            ErrorCode::WriteFile,
            st == Stage::WriteOpen { repo, message } && a == Action::OpenRepo(repo),
            st,
            a,
        ),
        Stage::WriteOpen { repo, message } => same_session(s, t) && after_work(
            ev,
            ErrorCode::OpenRepo,
            st == Stage::WriteStage { repo, message } && a == Action::StageDocument(repo),
            st,
            a,
        ),
        Stage::WriteStage { repo, message } => same_session(s, t) && after_work(
            ev,
            ErrorCode::GitAdd,
            st == Stage::WriteCommit { repo } && a == Action::Commit { repo, message },
            st,
            a,
        ),
        Stage::WriteCommit { repo } => same_session(s, t) && after_work(
            ev,
            ErrorCode::GitCommit,
            st == Stage::WriteRemote { repo } && a == Action::HasRemote(repo),
            st,
            a,
        ),
        Stage::WriteRemote { repo } => same_session(s, t) && after_answer(
            ev,
            ErrorCode::GitPush,
            st is WritePush && a == Action::Push(repo),
            succeeds(st, a, Outcome::Saved, ReplyData::Nothing),
            st,
            a,
        ),
        Stage::WritePush => same_session(s, t) && after_work(
            ev,
            ErrorCode::GitPush,
            succeeds(st, a, Outcome::Saved, ReplyData::Nothing),
            st,
            a,
        ),
        _ => false,
    }
}

/// The steps of the read requests.
pub open spec fn read_transition(
    s: HostConfig,
    stage: Stage,
    ev: Event,
    t: HostConfig,
    st: Stage,
    a: Action,
) -> bool {
    let enc = s.encryption_enabled;
    match stage {
        Stage::ReadExists { repo } => same_session(s, t) && after_answer(
            ev,
            ErrorCode::ReadFile,
            st == Stage::ReadProbe { repo } && a == Action::ProbeEncryption(repo),
            st is Done && match a {
                Action::Reply(Reply::Success { outcome: Outcome::NoFile, data: ReplyData::Document(d) }) => {
                    &&& d.jsonapi.version@ == crate::storage::supported_version()
                    &&& d.data@.len() == 0
                    &&& d.included is None
                },
                _ => false,
            },
            st,
            a,
        ),
        Stage::ReadProbe { repo } => same_session(s, t) && after_answer(
            ev,
            ErrorCode::ReadFile,
            if enc {
                st is ReadFile && a == Action::ReadDocument { repo, decrypt: true }
            } else {
                fails(st, a, ErrorCode::EncryptedButDisabled, Detail::Nothing)
            },
            st is ReadFile && a == Action::ReadDocument { repo, decrypt: false },
            st,
            a,
        ),
        Stage::ReadFile => same_session(s, t) && on_parsed(
            ev,
            ErrorCode::ReadFile,
            |doc: BookmarksData|
                succeeds(st, a, Outcome::Loaded, ReplyData::Document(doc)),
            st,
            a,
        ),
        _ => false,
    }
}

/// The steps of the sync and status requests.
pub open spec fn remote_transition(
    s: HostConfig,
    stage: Stage,
    ev: Event,
    t: HostConfig,
    st: Stage,
    a: Action,
) -> bool {
    let enc = s.encryption_enabled;
    match stage {
        Stage::SyncOpen { repo } => same_session(s, t) && after_work(
            ev,
            ErrorCode::OpenRepo,
            st == Stage::SyncRemote { repo } && a == Action::HasRemote(repo),
            st,
            a,
        ),
        Stage::SyncRemote { repo } => same_session(s, t) && after_answer(
            ev,
            ErrorCode::NoRemote,
            st is SyncPull && a == Action::Pull(repo),
            fails(st, a, ErrorCode::NoRemote, Detail::Nothing),
            st,
            a,
        ),
        Stage::SyncPull => same_session(s, t) && after_work(
            ev,
            ErrorCode::GitPull,
            succeeds(st, a, Outcome::Synced, ReplyData::Nothing),
            st,
            a,
        ),
        Stage::StatusOpen { repo } => same_session(s, t) && after_work(
            ev,
            ErrorCode::OpenRepo,
            st == Stage::StatusQuery { repo } && a == Action::QueryStatus(repo),
            st,
            a,
        ),
        Stage::StatusQuery { repo } => same_session(s, t) && match ev {
            Event::Status { is_clean, has_remote, last_commit } => succeeds(
                st,
                a,
                Outcome::StatusRetrieved,
                ReplyData::Status {
                    repo_path: repo,
                    is_clean,
                    has_remote,
                    last_commit,
                    encryption_enabled: enc,
                },
            ),
            Event::Failed(e) => fails(st, a, ErrorCode::OpenRepo, Detail::Text(e)),
            _ => fails(st, a, ErrorCode::UnexpectedEvent, Detail::Nothing),
        },
        _ => false,
    }
}

/// The steps of the enable-encryption requests.
pub open spec fn enable_transition(
    s: HostConfig,
    stage: Stage,
    ev: Event,
    t: HostConfig,
    st: Stage,
    a: Action,
) -> bool {
    let enc = s.encryption_enabled;
    match stage {
        Stage::EnablePlatform => same_session(s, t) && after_answer(
            ev,
            ErrorCode::PlatformNotSupported,
            st is EnableKey && a is GenerateKey,
            fails(st, a, ErrorCode::PlatformNotSupported, Detail::Nothing),
            st,
            a,
        ),
        Stage::EnableKey => same_session(s, t) && after_work(
            ev,
            ErrorCode::KeyGen,
            match s.repo_path {
                None => fails(st, a, ErrorCode::NotInitialized, Detail::Nothing),
                Some(r) => st == Stage::EnableExists { repo: r } && a == Action::CheckFileExists(
                    r,
                ),
            },
            st,
            a,
        ),
        Stage::EnableExists { repo } => match ev {
            Event::Answer(false) => t.repo_path == s.repo_path && t.encryption_enabled
                && succeeds(st, a, Outcome::EncryptionEnabled, ReplyData::EncryptionFlag(true)),
            _ => same_session(s, t) && after_answer(
                ev,
                ErrorCode::CheckEncryption,
                st == Stage::EnableProbe { repo } && a == Action::ProbeEncryption(repo),
                false,
                st,
                a,
            ),
        },
        Stage::EnableProbe { repo } => match ev {
            Event::Answer(true) => t.repo_path == s.repo_path && t.encryption_enabled
                && succeeds(st, a, Outcome::EncryptionEnabled, ReplyData::EncryptionFlag(true)),
            _ => same_session(s, t) && after_answer(
                ev,
                ErrorCode::CheckEncryption,
                false,
                st == Stage::EnableRead { repo } && a == Action::ReadDocument {
                    repo,
                    decrypt: false,
                },
                st,
                a,
            ),
        },
        Stage::EnableRead { repo } => same_session(s, t) && on_parsed(
            ev,
            ErrorCode::ReadForEncrypt,
            |doc: BookmarksData|
                st is EnableWrite && a == Action::WriteDocument { repo, encrypt: true, doc },
            st,
            a,
        ),
        Stage::EnableWrite => match ev {
            Event::Done => t.repo_path == s.repo_path && t.encryption_enabled && succeeds(
                st,
                a,
                Outcome::EncryptionEnabled,
                ReplyData::EncryptionFlag(true),
            ),
            _ => same_session(s, t) && after_work(ev, ErrorCode::Encrypt, false, st, a),
        },
        _ => false,
    }
}

/// The steps of the disable-encryption, encryption-status and finished requests.
pub open spec fn disable_transition(
    s: HostConfig,
    stage: Stage,
    ev: Event,
    t: HostConfig,
    st: Stage,
    a: Action,
) -> bool {
    let enc = s.encryption_enabled;
    match stage {
        Stage::DisablePlatform => match ev {
            Event::Answer(false) => t.repo_path == s.repo_path && !t.encryption_enabled
                && succeeds(st, a, Outcome::EncryptionDisabled, ReplyData::Nothing),
            _ => same_session(s, t) && after_answer(
                ev,
                ErrorCode::PlatformNotSupported,
                match s.repo_path {
                    None => fails(st, a, ErrorCode::NotInitialized, Detail::Nothing),
                    Some(r) => st == Stage::DisableExists { repo: r } && a
                        == Action::CheckFileExists(r),
                },
                false,
                st,
                a,
            ),
        },
        Stage::DisableExists { repo } => same_session(s, t) && after_answer(
            ev,
            ErrorCode::CheckEncryption,
            st == Stage::DisableProbe { repo } && a == Action::ProbeEncryption(repo),
            st is DisableDelete && a is DeleteKey,
            st,
            a,
        ),
        Stage::DisableProbe { repo } => same_session(s, t) && after_answer(
            ev,
            ErrorCode::CheckEncryption,
            st == Stage::DisableRead { repo } && a == Action::ReadDocument { repo, decrypt: true },
            st is DisableDelete && a is DeleteKey,
            st,
            a,
        ),
        Stage::DisableRead { repo } => same_session(s, t) && on_parsed(
            ev,
            ErrorCode::Decrypt,
            |doc: BookmarksData|
                st is DisableWrite && a == Action::WriteDocument { repo, encrypt: false, doc },
            st,
            a,
        ),
        Stage::DisableWrite => same_session(s, t) && after_work(
            ev,
            ErrorCode::WriteDecrypt,
            st is DisableDelete && a is DeleteKey,
            st,
            a,
        ),
        Stage::DisableDelete => t.repo_path == s.repo_path && !t.encryption_enabled && succeeds(
            st,
            a,
            Outcome::EncryptionDisabled,
            ReplyData::EncryptionFlag(false),
        ),
        Stage::EncryptionStatusPlatform => same_session(s, t) && match ev {
            Event::Answer(p) => succeeds(
                st,
                a,
                Outcome::EncryptionStatusRetrieved,
                ReplyData::EncryptionStatus { encryption_enabled: enc, platform_supported: p },
            ),
            _ => fails(st, a, ErrorCode::UnexpectedEvent, Detail::Nothing),
        },
        Stage::Done => same_session(s, t) && fails(
            st,
            a,
            ErrorCode::UnexpectedEvent,
            Detail::Nothing,
        ),
        _ => false,
    }
}

/// Each step of each request: the session after it, the stage and the next action.
pub open spec fn transition(
    s: HostConfig,
    stage: Stage,
    ev: Event,
    t: HostConfig,
    st: Stage,
    a: Action,
) -> bool {
    match stage {
        Stage::InitResolve { .. } | Stage::InitOpen { .. } => init_transition(s, stage, ev, t, st, a),
        Stage::WriteParse { .. } | Stage::WriteFile { .. } | Stage::WriteOpen { .. } | Stage::WriteStage { .. } | Stage::WriteCommit { .. } | Stage::WriteRemote { .. } | Stage::WritePush => write_transition(s, stage, ev, t, st, a),
        Stage::ReadExists { .. } | Stage::ReadProbe { .. } | Stage::ReadFile => read_transition(s, stage, ev, t, st, a),
        Stage::SyncOpen { .. } | Stage::SyncRemote { .. } | Stage::SyncPull | Stage::StatusOpen { .. } | Stage::StatusQuery { .. } => remote_transition(s, stage, ev, t, st, a),
        Stage::EnablePlatform | Stage::EnableKey | Stage::EnableExists { .. } | Stage::EnableProbe { .. } | Stage::EnableRead { .. } | Stage::EnableWrite => enable_transition(s, stage, ev, t, st, a),
        Stage::DisablePlatform | Stage::DisableExists { .. } | Stage::DisableProbe { .. } | Stage::DisableRead { .. } | Stage::DisableWrite | Stage::DisableDelete | Stage::EncryptionStatusPlatform | Stage::Done => disable_transition(s, stage, ev, t, st, a),
    }
}

/// Turning encryption on or off rewrites the stored document unchanged: once a valid
/// document has been read, enabling asks for that same document to be written sealed,
/// and disabling asks for it to be written in plain text, both to the same tree.
pub proof fn lemma_encryption_rewrites_same_document(
    s: HostConfig,
    repo: String,
    doc: BookmarksData,
    t: HostConfig,
    st: Stage,
    a: Action,
)
    requires
        (validation_of(doc) is Ok),
    ensures
        transition(s, (Stage::EnableRead { repo }), Event::Parsed(doc), t, st, a) ==> (st is EnableWrite)
            && a == (Action::WriteDocument { repo, encrypt: true, doc }) && same_session(s, t),
        transition(s, (Stage::DisableRead { repo }), Event::Parsed(doc), t, st, a) ==> (st is DisableWrite)
            && a == (Action::WriteDocument { repo, encrypt: false, doc }) && same_session(s, t),
{
}

fn error(code: ErrorCode, detail: Detail) -> (r: (Stage, Action))
    ensures
        fails(r.0, r.1, code, detail),
{
    (Stage::Done, Action::Reply(Reply::Error { code, detail }))
}

fn success(outcome: Outcome, data: ReplyData) -> (r: (Stage, Action))
    ensures
        succeeds(r.0, r.1, outcome, data),
{
    (Stage::Done, Action::Reply(Reply::Success { outcome, data }))
}

/// The end of a request whose last action answered with the wrong kind of event, or
/// failed with `code`.
fn bad_event(ev: Event, code: ErrorCode) -> (r: (Stage, Action))
    requires
        !(ev is Done),
    ensures
        match ev {
            Event::Failed(e) => fails(r.0, r.1, code, Detail::Text(e)),
            _ => fails(r.0, r.1, ErrorCode::UnexpectedEvent, Detail::Nothing),
        },
{
    match ev {
        Event::Failed(e) => error(code, Detail::Text(e)),
        _ => error(ErrorCode::UnexpectedEvent, Detail::Nothing),
    }
}

impl HostConfig {
    /// No tree open, encryption off.
    pub fn new() -> (r: Self)
        ensures
            r.repo_path is None,
            !r.encryption_enabled,
    {
        HostConfig { repo_path: None, encryption_enabled: false }
    }

    /// The open working tree.
    pub fn get_repo_path(&self) -> (r: Result<String, NotInitialized>)
        ensures
            match self.repo_path {
                Some(p) => r == Ok::<String, NotInitialized>(p),
                None => r == Err::<String, NotInitialized>(NotInitialized),
            },
    {
        match &self.repo_path {
            Some(p) => Ok(p.clone()),
            None => Err(NotInitialized),
        }
    }

    /// The first stage and action of `request`.
    pub fn start(&mut self, request: Request) -> (r: (Stage, Action))
        ensures
            opening(*old(self), request, *final(self), r.0, r.1),
    {
        match request {
            Request::Init { repo_path, repo_url } => {
                let p = match repo_path {
                    Some(q) => q,
                    None => {
                        proof {
                            reveal_strlit("default-repo");
                        }
                        let d = String::from_str("default-repo");
                        assert(d@ =~= default_repo());
                        d
                    },
                };
                (Stage::InitResolve { url: repo_url }, Action::ResolvePath(p))
            },
            Request::EnableEncryption => (Stage::EnablePlatform, Action::CheckPlatform),
            Request::DisableEncryption => (Stage::DisablePlatform, Action::CheckPlatform),
            Request::EncryptionStatus => (Stage::EncryptionStatusPlatform, Action::CheckPlatform),
            Request::Status => match self.get_repo_path() {
                Err(_) => success(Outcome::NotInitialized, ReplyData::NotInitialized),
                Ok(r) => (Stage::StatusOpen { repo: r.clone() }, Action::OpenRepo(r)),
            },
            Request::Write => match self.get_repo_path() {
                Err(_) => error(ErrorCode::NotInitialized, Detail::Nothing),
                Ok(r) => (Stage::WriteParse { repo: r }, Action::ParseDocument),
            },
            Request::Read => match self.get_repo_path() {
                Err(_) => error(ErrorCode::NotInitialized, Detail::Nothing),
                Ok(r) => (Stage::ReadExists { repo: r.clone() }, Action::CheckFileExists(r)),
            },
            Request::Sync => match self.get_repo_path() {
                Err(_) => error(ErrorCode::NotInitialized, Detail::Nothing),
                Ok(r) => (Stage::SyncOpen { repo: r.clone() }, Action::OpenRepo(r)),
            },
        }
    }

    /// The next stage and action, given what came of the last action.
    pub fn step(&mut self, stage: Stage, event: Event) -> (r: (Stage, Action))
        ensures
            transition(*old(self), stage, event, *final(self), r.0, r.1),
    {
        match stage {
            Stage::InitResolve { .. } | Stage::InitOpen { .. } => self.step_init(stage, event),
            Stage::WriteParse { .. } | Stage::WriteFile { .. } | Stage::WriteOpen { .. } | Stage::WriteStage { .. } | Stage::WriteCommit { .. } | Stage::WriteRemote { .. } | Stage::WritePush => self.step_write(stage, event),
            Stage::ReadExists { .. } | Stage::ReadProbe { .. } | Stage::ReadFile => self.step_read(stage, event),
            Stage::SyncOpen { .. } | Stage::SyncRemote { .. } | Stage::SyncPull | Stage::StatusOpen { .. } | Stage::StatusQuery { .. } => self.step_remote(stage, event),
            Stage::EnablePlatform | Stage::EnableKey | Stage::EnableExists { .. } | Stage::EnableProbe { .. } | Stage::EnableRead { .. } | Stage::EnableWrite => self.step_enable(stage, event),
            Stage::DisablePlatform | Stage::DisableExists { .. } | Stage::DisableProbe { .. } | Stage::DisableRead { .. } | Stage::DisableWrite | Stage::DisableDelete | Stage::EncryptionStatusPlatform | Stage::Done => self.step_disable(stage, event),
        }
    }

    fn step_init(&mut self, stage: Stage, event: Event) -> (r: (Stage, Action))
        requires
            stage is InitResolve || stage is InitOpen,
        ensures
            init_transition(*old(self), stage, event, *final(self), r.0, r.1),
    {
        let enc = self.encryption_enabled;
        match stage {
            Stage::InitResolve { url } => match event {
                Event::Path(p) => match url {
                    Some(u) => (
                        Stage::InitOpen { path: p.clone(), cloning: true },
                        Action::CloneRepo { url: u, path: p },
                    ),
                    None => (Stage::InitOpen { path: p.clone(), cloning: false }, Action::OpenRepo(p)),
                },
                Event::Failed(e) => error(ErrorCode::InvalidPath, Detail::Text(e)),
                _ => error(ErrorCode::UnexpectedEvent, Detail::Nothing),
            },
            Stage::InitOpen { path, cloning } => match event {
                Event::Done => {
                    self.repo_path = Some(path.clone());
                    success(Outcome::Initialized(path), ReplyData::Nothing)
                },
                _ => bad_event(
                    event,
                    if cloning {
                        ErrorCode::Clone
                    } else {
                        ErrorCode::Init
                    },
                ),
            },
            _ => error(ErrorCode::UnexpectedEvent, Detail::Nothing),
        }
    }

    fn step_write(&mut self, stage: Stage, event: Event) -> (r: (Stage, Action))
        requires
            stage is WriteParse || stage is WriteFile || stage is WriteOpen || stage is WriteStage || stage is WriteCommit || stage is WriteRemote || stage is WritePush,
        ensures
            write_transition(*old(self), stage, event, *final(self), r.0, r.1),
    {
        let enc = self.encryption_enabled;
        match stage {
            Stage::WriteParse { repo } => match event {
                Event::Parsed(doc) => match doc.validate() {
                    Err(v) => error(ErrorCode::Validate, Detail::Invalid(v)),
                    Ok(()) => {
                        let message = doc.commit_message();
                        (
                            Stage::WriteFile { repo: repo.clone(), message },
                            Action::WriteDocument { repo, encrypt: enc, doc },
                        )
                    },
                },
                Event::Failed(e) => error(ErrorCode::Parse, Detail::Text(e)),
                _ => error(ErrorCode::UnexpectedEvent, Detail::Nothing),
            },
            Stage::WriteFile { repo, message } => match event {
                Event::Done => (Stage::WriteOpen { repo: repo.clone(), message }, Action::OpenRepo(repo)),
                _ => bad_event(event, ErrorCode::WriteFile),
            },
            Stage::WriteOpen { repo, message } => match event {
                Event::Done => (
                    Stage::WriteStage { repo: repo.clone(), message },
                    Action::StageDocument(repo),
                ),
                _ => bad_event(event, ErrorCode::OpenRepo),
            },
            Stage::WriteStage { repo, message } => match event {
                Event::Done => (
                    Stage::WriteCommit { repo: repo.clone() },
                    Action::Commit { repo, message },
                ),
                _ => bad_event(event, ErrorCode::GitAdd),
            },
            Stage::WriteCommit { repo } => match event {
                Event::Done => (Stage::WriteRemote { repo: repo.clone() }, Action::HasRemote(repo)),
                _ => bad_event(event, ErrorCode::GitCommit),
            },
            Stage::WriteRemote { repo } => match event {
                Event::Answer(true) => (Stage::WritePush, Action::Push(repo)),
                Event::Answer(false) => success(Outcome::Saved, ReplyData::Nothing),
                Event::Failed(e) => error(ErrorCode::GitPush, Detail::Text(e)),
                _ => error(ErrorCode::UnexpectedEvent, Detail::Nothing),
            },
            Stage::WritePush => match event {
                Event::Done => success(Outcome::Saved, ReplyData::Nothing),
                _ => bad_event(event, ErrorCode::GitPush),
            },
            _ => error(ErrorCode::UnexpectedEvent, Detail::Nothing),
        }
    }

    fn step_read(&mut self, stage: Stage, event: Event) -> (r: (Stage, Action))
        requires
            stage is ReadExists || stage is ReadProbe || stage is ReadFile,
        ensures
            read_transition(*old(self), stage, event, *final(self), r.0, r.1),
    {
        let enc = self.encryption_enabled;
        match stage {
            Stage::ReadExists { repo } => match event {
                Event::Answer(true) => (
                    Stage::ReadProbe { repo: repo.clone() },
                    Action::ProbeEncryption(repo),
                ),
                Event::Answer(false) => success(
                    Outcome::NoFile,
                    ReplyData::Document(BookmarksData::new()),
                ),
                Event::Failed(e) => error(ErrorCode::ReadFile, Detail::Text(e)),
                _ => error(ErrorCode::UnexpectedEvent, Detail::Nothing),
            },
            Stage::ReadProbe { repo } => match event {
                Event::Answer(true) => {
                    if enc {
                        (Stage::ReadFile, Action::ReadDocument { repo, decrypt: true })
                    } else {
                        error(ErrorCode::EncryptedButDisabled, Detail::Nothing)
                    }
                },
                Event::Answer(false) => (Stage::ReadFile, Action::ReadDocument { repo, decrypt: false }),
                Event::Failed(e) => error(ErrorCode::ReadFile, Detail::Text(e)),
                _ => error(ErrorCode::UnexpectedEvent, Detail::Nothing),
            },
            Stage::ReadFile => match event {
                Event::Parsed(doc) => match doc.validate() {
                    Err(v) => error(ErrorCode::ReadFile, Detail::Invalid(v)),
                    Ok(()) => success(Outcome::Loaded, ReplyData::Document(doc)),
                },
                Event::Failed(e) => error(ErrorCode::ReadFile, Detail::Text(e)),
                _ => error(ErrorCode::UnexpectedEvent, Detail::Nothing),
            },
            _ => error(ErrorCode::UnexpectedEvent, Detail::Nothing),
        }
    }

    fn step_remote(&mut self, stage: Stage, event: Event) -> (r: (Stage, Action))
        requires
            stage is SyncOpen || stage is SyncRemote || stage is SyncPull || stage is StatusOpen || stage is StatusQuery,
        ensures
            remote_transition(*old(self), stage, event, *final(self), r.0, r.1),
    {
        let enc = self.encryption_enabled;
        match stage {
            Stage::SyncOpen { repo } => match event {
                Event::Done => (Stage::SyncRemote { repo: repo.clone() }, Action::HasRemote(repo)),
                _ => bad_event(event, ErrorCode::OpenRepo),
            },
            Stage::SyncRemote { repo } => match event {
                Event::Answer(true) => (Stage::SyncPull, Action::Pull(repo)),
                Event::Answer(false) => error(ErrorCode::NoRemote, Detail::Nothing),
                Event::Failed(e) => error(ErrorCode::NoRemote, Detail::Text(e)),
                _ => error(ErrorCode::UnexpectedEvent, Detail::Nothing),
            },
            Stage::SyncPull => match event {
                Event::Done => success(Outcome::Synced, ReplyData::Nothing),
                _ => bad_event(event, ErrorCode::GitPull),
            },
            Stage::StatusOpen { repo } => match event {
                Event::Done => (Stage::StatusQuery { repo: repo.clone() }, Action::QueryStatus(repo)),
                _ => bad_event(event, ErrorCode::OpenRepo),
            },
            Stage::StatusQuery { repo } => match event {
                Event::Status { is_clean, has_remote, last_commit } => success(
                    Outcome::StatusRetrieved,
                    ReplyData::Status {
                        repo_path: repo,
                        is_clean,
                        has_remote,
                        last_commit,
                        encryption_enabled: enc,
                    },
                ),
                Event::Failed(e) => error(ErrorCode::OpenRepo, Detail::Text(e)),
                _ => error(ErrorCode::UnexpectedEvent, Detail::Nothing),
            },
            _ => error(ErrorCode::UnexpectedEvent, Detail::Nothing),
        }
    }

    fn step_enable(&mut self, stage: Stage, event: Event) -> (r: (Stage, Action))
        requires
            stage is EnablePlatform || stage is EnableKey || stage is EnableExists || stage is EnableProbe || stage is EnableRead || stage is EnableWrite,
        ensures
            enable_transition(*old(self), stage, event, *final(self), r.0, r.1),
    {
        let enc = self.encryption_enabled;
        match stage {
            Stage::EnablePlatform => match event {
                Event::Answer(true) => (Stage::EnableKey, Action::GenerateKey),
                Event::Answer(false) => error(ErrorCode::PlatformNotSupported, Detail::Nothing),
                Event::Failed(e) => error(ErrorCode::PlatformNotSupported, Detail::Text(e)),
                _ => error(ErrorCode::UnexpectedEvent, Detail::Nothing),
            },
            Stage::EnableKey => match event {
                Event::Done => match self.get_repo_path() {
                    Err(_) => error(ErrorCode::NotInitialized, Detail::Nothing),
                    Ok(r) => (Stage::EnableExists { repo: r.clone() }, Action::CheckFileExists(r)),
                },
                _ => bad_event(event, ErrorCode::KeyGen),
            },
            Stage::EnableExists { repo } => match event {
                Event::Answer(false) => {
                    self.encryption_enabled = true;
                    success(Outcome::EncryptionEnabled, ReplyData::EncryptionFlag(true))
                },
                Event::Answer(true) => (
                    Stage::EnableProbe { repo: repo.clone() },
                    Action::ProbeEncryption(repo),
                ),
                Event::Failed(e) => error(ErrorCode::CheckEncryption, Detail::Text(e)),
                _ => error(ErrorCode::UnexpectedEvent, Detail::Nothing),
            },
            Stage::EnableProbe { repo } => match event {
                Event::Answer(true) => {
                    self.encryption_enabled = true;
                    success(Outcome::EncryptionEnabled, ReplyData::EncryptionFlag(true))
                },
                Event::Answer(false) => (
                    Stage::EnableRead { repo: repo.clone() },
                    Action::ReadDocument { repo, decrypt: false },
                ),
                Event::Failed(e) => error(ErrorCode::CheckEncryption, Detail::Text(e)),
                _ => error(ErrorCode::UnexpectedEvent, Detail::Nothing),
            },
            Stage::EnableRead { repo } => match event {
                Event::Parsed(doc) => match doc.validate() {
                    Err(v) => error(ErrorCode::ReadForEncrypt, Detail::Invalid(v)),
                    Ok(()) => (Stage::EnableWrite, Action::WriteDocument { repo, encrypt: true, doc }),
                },
                Event::Failed(e) => error(ErrorCode::ReadForEncrypt, Detail::Text(e)),
                _ => error(ErrorCode::UnexpectedEvent, Detail::Nothing),
            },
            Stage::EnableWrite => match event {
                Event::Done => {
                    self.encryption_enabled = true;
                    success(Outcome::EncryptionEnabled, ReplyData::EncryptionFlag(true))
                },
                _ => bad_event(event, ErrorCode::Encrypt),
            },
            _ => error(ErrorCode::UnexpectedEvent, Detail::Nothing),
        }
    }

    fn step_disable(&mut self, stage: Stage, event: Event) -> (r: (Stage, Action))
        requires
            stage is DisablePlatform || stage is DisableExists || stage is DisableProbe || stage is DisableRead || stage is DisableWrite || stage is DisableDelete || stage is EncryptionStatusPlatform || stage is Done,
        ensures
            disable_transition(*old(self), stage, event, *final(self), r.0, r.1),
    {
        let enc = self.encryption_enabled;
        match stage {
            Stage::DisablePlatform => match event {
                Event::Answer(false) => {
                    self.encryption_enabled = false;
                    success(Outcome::EncryptionDisabled, ReplyData::Nothing)
                },
                Event::Answer(true) => match self.get_repo_path() {
                    Err(_) => error(ErrorCode::NotInitialized, Detail::Nothing),
                    Ok(r) => (Stage::DisableExists { repo: r.clone() }, Action::CheckFileExists(r)),
                },
                Event::Failed(e) => error(ErrorCode::PlatformNotSupported, Detail::Text(e)),
                _ => error(ErrorCode::UnexpectedEvent, Detail::Nothing),
            },
            Stage::DisableExists { repo } => match event {
                Event::Answer(true) => (
                    Stage::DisableProbe { repo: repo.clone() },
                    Action::ProbeEncryption(repo),
                ),
                Event::Answer(false) => (Stage::DisableDelete, Action::DeleteKey),
                Event::Failed(e) => error(ErrorCode::CheckEncryption, Detail::Text(e)),
                _ => error(ErrorCode::UnexpectedEvent, Detail::Nothing),
            },
            Stage::DisableProbe { repo } => match event {
                Event::Answer(true) => (
                    Stage::DisableRead { repo: repo.clone() },
                    Action::ReadDocument { repo, decrypt: true },
                ),
                Event::Answer(false) => (Stage::DisableDelete, Action::DeleteKey),
                Event::Failed(e) => error(ErrorCode::CheckEncryption, Detail::Text(e)),
                _ => error(ErrorCode::UnexpectedEvent, Detail::Nothing),
            },
            Stage::DisableRead { repo } => match event {
                Event::Parsed(doc) => match doc.validate() {
                    Err(v) => error(ErrorCode::Decrypt, Detail::Invalid(v)),
                    Ok(()) => (Stage::DisableWrite, Action::WriteDocument { repo, encrypt: false, doc }),
                },
                Event::Failed(e) => error(ErrorCode::Decrypt, Detail::Text(e)),
                _ => error(ErrorCode::UnexpectedEvent, Detail::Nothing),
            },
            Stage::DisableWrite => match event {
                Event::Done => (Stage::DisableDelete, Action::DeleteKey),
                _ => bad_event(event, ErrorCode::WriteDecrypt),
            },
            Stage::DisableDelete => {
                self.encryption_enabled = false;
                success(Outcome::EncryptionDisabled, ReplyData::EncryptionFlag(false))
            },
            Stage::EncryptionStatusPlatform => match event {
                Event::Answer(p) => success(
                    Outcome::EncryptionStatusRetrieved,
                    ReplyData::EncryptionStatus { encryption_enabled: enc, platform_supported: p },
                ),
                _ => error(ErrorCode::UnexpectedEvent, Detail::Nothing),
            },
            Stage::Done => error(ErrorCode::UnexpectedEvent, Detail::Nothing),
            _ => error(ErrorCode::UnexpectedEvent, Detail::Nothing),
        }
    }
}

} // verus!
