use webtags_host::encryption::EncryptionManager;
use webtags_host::session::{
    Action, Detail, ErrorCode, Event, HostConfig, Outcome, Reply, ReplyData, Request, Stage,
};
use webtags_host::storage::{create_bookmark, create_tag, BookmarksData, Resource, ValidationError};

fn one_bookmark_one_tag() -> BookmarksData {
    let mut d = BookmarksData::new();
    let tag = create_tag("rust".to_string(), Some("#3b82f6".to_string()), None).unwrap();
    let tag_id = if let Resource::Tag { id, .. } = &tag { id.clone() } else { panic!("Expected tag") };
    d.add_tag(tag).unwrap();
    d.add_bookmark(create_bookmark("https://rust-lang.org".to_string(), "Rust".to_string(), vec![tag_id]).unwrap())
        .unwrap();
    d
}

fn init(cfg: &mut HostConfig, path: &str) {
    let (stage, action) = cfg.start(Request::Init { repo_path: Some(path.to_string()), repo_url: None });
    assert!(matches!(&action, Action::ResolvePath(p) if p == path));
    let (stage, action) = cfg.step(stage, Event::Path(format!("/base/{path}")));
    assert!(matches!(&action, Action::OpenRepo(p) if p == &format!("/base/{path}")));
    let (stage, action) = cfg.step(stage, Event::Done);
    assert!(matches!(stage, Stage::Done));
    assert!(matches!(action, Action::Reply(Reply::Success { outcome: Outcome::Initialized(_), .. })));
}

fn error_code(action: &Action) -> Option<ErrorCode> {
    match action {
        Action::Reply(Reply::Error { code, .. }) => Some(*code),
        _ => None,
    }
}

#[test]
fn requests_before_init_are_refused() {
    let mut cfg = HostConfig::new();
    assert!(cfg.get_repo_path().is_err());
    for req in [Request::Write, Request::Read, Request::Sync] {
        let (stage, action) = cfg.start(req);
        assert!(matches!(stage, Stage::Done));
        assert_eq!(error_code(&action), Some(ErrorCode::NotInitialized));
    }
    let (_, action) = cfg.start(Request::Status);
    assert!(matches!(
        action,
        Action::Reply(Reply::Success { outcome: Outcome::NotInitialized, data: ReplyData::NotInitialized })
    ));
}

#[test]
fn init_defaults_the_path_and_records_it() {
    let mut cfg = HostConfig::new();
    let (stage, action) = cfg.start(Request::Init { repo_path: None, repo_url: Some("https://h/r.git".to_string()) });
    assert!(matches!(&action, Action::ResolvePath(p) if p == "default-repo"));
    let (stage, action) = cfg.step(stage, Event::Path("/base/default-repo".to_string()));
    assert!(matches!(&action, Action::CloneRepo { url, path } if url == "https://h/r.git" && path == "/base/default-repo"));
    assert!(cfg.repo_path.is_none());
    let _ = cfg.step(stage, Event::Done);
    assert_eq!(cfg.get_repo_path().unwrap(), "/base/default-repo");
}

#[test]
fn init_outside_the_base_is_refused() {
    let mut cfg = HostConfig::new();
    let (stage, _) = cfg.start(Request::Init { repo_path: Some("/etc".to_string()), repo_url: None });
    let (_, action) = cfg.step(stage, Event::Failed("outside".to_string()));
    assert_eq!(error_code(&action), Some(ErrorCode::InvalidPath));
    assert!(cfg.repo_path.is_none());
}

#[test]
fn write_then_read_returns_the_written_document() {
    let mut cfg = HostConfig::new();
    init(&mut cfg, "tree");
    let doc = one_bookmark_one_tag();
    let (stage, action) = cfg.start(Request::Write);
    assert!(matches!(action, Action::ParseDocument));
    let (stage, action) = cfg.step(stage, Event::Parsed(doc.clone()));
    let written = match action {
        Action::WriteDocument { repo, encrypt, doc } => {
            assert_eq!(repo, "/base/tree");
            assert!(!encrypt);
            doc
        }
        other => panic!("unexpected {other:?}"),
    };
    assert_eq!(written, doc);
    let (stage, action) = cfg.step(stage, Event::Done);
    assert!(matches!(action, Action::OpenRepo(_)));
    let (stage, action) = cfg.step(stage, Event::Done);
    assert!(matches!(action, Action::StageDocument(_)));
    let (stage, action) = cfg.step(stage, Event::Done);
    match &action {
        Action::Commit { message, .. } => assert_eq!(message, "Update bookmarks: 1 bookmarks, 1 tags"),
        other => panic!("unexpected {other:?}"),
    }
    let (stage, action) = cfg.step(stage, Event::Done);
    assert!(matches!(action, Action::HasRemote(_)));
    let (stage, action) = cfg.step(stage, Event::Answer(false));
    assert!(matches!(stage, Stage::Done));
    assert!(matches!(action, Action::Reply(Reply::Success { outcome: Outcome::Saved, .. })));

    let (stage, action) = cfg.start(Request::Read);
    assert!(matches!(action, Action::CheckFileExists(_)));
    let (stage, action) = cfg.step(stage, Event::Answer(true));
    assert!(matches!(action, Action::ProbeEncryption(_)));
    let (stage, action) = cfg.step(stage, Event::Answer(false));
    assert!(matches!(action, Action::ReadDocument { decrypt: false, .. }));
    let (_, action) = cfg.step(stage, Event::Parsed(written));
    match action {
        Action::Reply(Reply::Success { outcome: Outcome::Loaded, data: ReplyData::Document(d) }) => assert_eq!(d, doc),
        other => panic!("unexpected {other:?}"),
    }
}

#[test]
fn write_pushes_when_a_remote_exists_and_stops_at_the_first_failure() {
    let mut cfg = HostConfig::new();
    init(&mut cfg, "tree");
    let (stage, _) = cfg.start(Request::Write);
    let (stage, _) = cfg.step(stage, Event::Parsed(one_bookmark_one_tag()));
    let (stage, _) = cfg.step(stage, Event::Done);
    let (stage, _) = cfg.step(stage, Event::Done);
    let (stage, _) = cfg.step(stage, Event::Done);
    let (stage, _) = cfg.step(stage, Event::Done);
    let (stage, action) = cfg.step(stage, Event::Answer(true));
    assert!(matches!(action, Action::Push(_)));
    let (_, action) = cfg.step(stage, Event::Failed("rejected".to_string()));
    assert_eq!(error_code(&action), Some(ErrorCode::GitPush));

    let (stage, _) = cfg.start(Request::Write);
    let (stage, _) = cfg.step(stage, Event::Parsed(one_bookmark_one_tag()));
    let (stage, action) = cfg.step(stage, Event::Failed("disk full".to_string()));
    assert!(matches!(stage, Stage::Done));
    match action {
        Action::Reply(Reply::Error { code: ErrorCode::WriteFile, detail: Detail::Text(t) }) => assert_eq!(t, "disk full"),
        other => panic!("unexpected {other:?}"),
    }
}

#[test]
fn invalid_or_unparsed_documents_are_not_written() {
    let mut cfg = HostConfig::new();
    init(&mut cfg, "tree");
    let mut bad = BookmarksData::new();
    bad.add_tag(create_tag("<script>".to_string(), None, None).unwrap()).unwrap();
    let (stage, _) = cfg.start(Request::Write);
    let (_, action) = cfg.step(stage, Event::Parsed(bad));
    assert!(matches!(
        action,
        Action::Reply(Reply::Error { code: ErrorCode::Validate, detail: Detail::Invalid(ValidationError::TagNameHtml) })
    ));
    let (stage, _) = cfg.start(Request::Write);
    let (_, action) = cfg.step(stage, Event::Failed("bad json".to_string()));
    assert_eq!(error_code(&action), Some(ErrorCode::Parse));
}

#[test]
fn reading_a_missing_file_gives_an_empty_document() {
    let mut cfg = HostConfig::new();
    init(&mut cfg, "tree");
    let (stage, _) = cfg.start(Request::Read);
    let (_, action) = cfg.step(stage, Event::Answer(false));
    match action {
        Action::Reply(Reply::Success { outcome: Outcome::NoFile, data: ReplyData::Document(d) }) => {
            assert_eq!(d, BookmarksData::new())
        }
        other => panic!("unexpected {other:?}"),
    }
}

#[test]
fn encrypted_file_needs_encryption_enabled() {
    let mut cfg = HostConfig::new();
    init(&mut cfg, "tree");
    let (stage, _) = cfg.start(Request::Read);
    let (stage, _) = cfg.step(stage, Event::Answer(true));
    let (_, action) = cfg.step(stage, Event::Answer(true));
    assert_eq!(error_code(&action), Some(ErrorCode::EncryptedButDisabled));
}

#[test]
fn enabling_then_disabling_encryption_restores_the_document() {
    let mut cfg = HostConfig::new();
    init(&mut cfg, "tree");
    let doc = one_bookmark_one_tag();
    let key: Vec<u8> = (100u8..132).collect();
    let plain = format!("{doc:?}").into_bytes();

    let (stage, action) = cfg.start(Request::EnableEncryption);
    assert!(matches!(action, Action::CheckPlatform));
    let (stage, action) = cfg.step(stage, Event::Answer(true));
    assert!(matches!(action, Action::GenerateKey));
    let (stage, action) = cfg.step(stage, Event::Done);
    assert!(matches!(action, Action::CheckFileExists(_)));
    let (stage, action) = cfg.step(stage, Event::Answer(true));
    assert!(matches!(action, Action::ProbeEncryption(_)));
    let (stage, action) = cfg.step(stage, Event::Answer(false));
    assert!(matches!(action, Action::ReadDocument { decrypt: false, .. }));
    let (stage, action) = cfg.step(stage, Event::Parsed(doc.clone()));
    let to_seal = match action {
        Action::WriteDocument { encrypt: true, doc, .. } => doc,
        other => panic!("unexpected {other:?}"),
    };
    let sealed = EncryptionManager::new(true).encrypt(&key, &plain).unwrap();
    assert!(sealed.encrypted);
    assert!(!cfg.encryption_enabled);
    let (_, action) = cfg.step(stage, Event::Done);
    assert!(matches!(action, Action::Reply(Reply::Success { outcome: Outcome::EncryptionEnabled, data: ReplyData::EncryptionFlag(true) })));
    assert!(cfg.encryption_enabled);

    let (stage, _) = cfg.start(Request::DisableEncryption);
    let (stage, _) = cfg.step(stage, Event::Answer(true));
    let (stage, _) = cfg.step(stage, Event::Answer(true));
    let (stage, action) = cfg.step(stage, Event::Answer(true));
    assert!(matches!(action, Action::ReadDocument { decrypt: true, .. }));
    let opened = EncryptionManager::new(true).decrypt(&key, &sealed).unwrap();
    assert_eq!(opened, plain);
    let (stage, action) = cfg.step(stage, Event::Parsed(to_seal));
    let restored = match action {
        Action::WriteDocument { encrypt: false, doc, .. } => doc,
        other => panic!("unexpected {other:?}"),
    };
    assert_eq!(restored, doc);
    let (stage, action) = cfg.step(stage, Event::Done);
    assert!(matches!(action, Action::DeleteKey));
    let (_, action) = cfg.step(stage, Event::Failed("key already gone".to_string()));
    assert!(matches!(action, Action::Reply(Reply::Success { outcome: Outcome::EncryptionDisabled, data: ReplyData::EncryptionFlag(false) })));
    assert!(!cfg.encryption_enabled);
}

#[test]
fn enabling_twice_is_a_no_op_and_unsupported_platforms_fail_fast() {
    let mut cfg = HostConfig::new();
    init(&mut cfg, "tree");
    let (stage, _) = cfg.start(Request::EnableEncryption);
    let (stage, _) = cfg.step(stage, Event::Answer(true));
    let (stage, _) = cfg.step(stage, Event::Done);
    let (stage, _) = cfg.step(stage, Event::Answer(true));
    let (_, action) = cfg.step(stage, Event::Answer(true));
    assert!(matches!(action, Action::Reply(Reply::Success { outcome: Outcome::EncryptionEnabled, .. })));
    assert!(cfg.encryption_enabled);

    let mut other = HostConfig::new();
    let (stage, _) = other.start(Request::EnableEncryption);
    let (_, action) = other.step(stage, Event::Answer(false));
    assert_eq!(error_code(&action), Some(ErrorCode::PlatformNotSupported));
    assert!(!other.encryption_enabled);
}

#[test]
fn sync_needs_a_remote_then_pulls() {
    let mut cfg = HostConfig::new();
    init(&mut cfg, "tree");
    let (stage, action) = cfg.start(Request::Sync);
    assert!(matches!(action, Action::OpenRepo(_)));
    let (stage, action) = cfg.step(stage, Event::Done);
    assert!(matches!(action, Action::HasRemote(_)));
    let (_, action) = cfg.step(stage, Event::Answer(false));
    assert_eq!(error_code(&action), Some(ErrorCode::NoRemote));

    let (stage, _) = cfg.start(Request::Sync);
    let (stage, _) = cfg.step(stage, Event::Done);
    let (stage, action) = cfg.step(stage, Event::Answer(true));
    assert!(matches!(action, Action::Pull(_)));
    let (_, action) = cfg.step(stage, Event::Done);
    assert!(matches!(action, Action::Reply(Reply::Success { outcome: Outcome::Synced, .. })));
}

#[test]
fn status_reports_the_tree() {
    let mut cfg = HostConfig::new();
    init(&mut cfg, "tree");
    let (stage, _) = cfg.start(Request::Status);
    let (stage, action) = cfg.step(stage, Event::Done);
    assert!(matches!(action, Action::QueryStatus(_)));
    let (_, action) = cfg.step(stage, Event::Status { is_clean: true, has_remote: false, last_commit: Some("m".to_string()) });
    match action {
        Action::Reply(Reply::Success { data: ReplyData::Status { repo_path, is_clean, has_remote, last_commit, encryption_enabled }, .. }) => {
            assert_eq!(repo_path, "/base/tree");
            assert!(is_clean && !has_remote && !encryption_enabled);
            assert_eq!(last_commit.as_deref(), Some("m"));
        }
        other => panic!("unexpected {other:?}"),
    }
}

#[test]
fn a_wrong_kind_of_event_ends_the_request() {
    let mut cfg = HostConfig::new();
    init(&mut cfg, "tree");
    let (stage, _) = cfg.start(Request::Sync);
    let (_, action) = cfg.step(stage, Event::Answer(true));
    assert_eq!(error_code(&action), Some(ErrorCode::UnexpectedEvent));
    let (_, action) = cfg.step(Stage::Done, Event::Done);
    assert_eq!(error_code(&action), Some(ErrorCode::UnexpectedEvent));
}
