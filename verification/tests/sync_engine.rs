use base64::Engine;
use tkit::Config;
use tkit::ToolConfig;
use tkit::sync::FetchedFile;
use tkit::sync::SyncError;
use tkit::sync::access_outcome;
use tkit::sync::pull_apply;
use tkit::sync::push_commit;
use tkit::sync::push_prepare;
use tkit::sync::put_outcome;
use tkit::sync::put_request;
use tkit::sync::sanitized;
use tkit::sync::sync_status;

/// An in-memory stand-in for the remote blob store: one file, with a
/// content-version tag assigned on every write and checked on every
/// conditional write.
struct FakeStore {
    content: Option<String>,
    version: u64,
}

impl FakeStore {
    fn new() -> FakeStore {
        FakeStore { content: None, version: 0 }
    }

    fn fetch_meta(&self) -> Option<FetchedFile> {
        self.content.as_ref().map(|c| FetchedFile {
            sha: format!("v{}", self.version),
            content: c.clone(),
        })
    }

    /// Returns an HTTP-like status: 201 on success, 409 on a version
    /// mismatch.
    fn put(&mut self, content: &str, expected: &Option<String>) -> u16 {
        let current = if self.content.is_some() {
            Some(format!("v{}", self.version))
        } else {
            None
        };
        match (expected, &current) {
            (Some(e), Some(c)) if e == c => {}
            (Some(_), _) => return 409,
            (None, _) => {}
        }
        self.content = Some(content.to_string());
        self.version += 1;
        201
    }
}

fn configured_config() -> Config {
    let mut config = Config::new();
    config.sync.repo = Some("user/tools".to_string());
    config.sync.token = Some("SECRET-REDACTED".to_string());
    config
}

fn git_tool() -> ToolConfig {
    ToolConfig {
        name: "git".to_string(),
        description: Some("Version control system".to_string()),
        install_commands: vec!["sudo apt-get install -y git".to_string()],
        remove_commands: vec!["sudo apt-get remove -y git".to_string()],
        update_commands: vec!["sudo apt-get upgrade -y git".to_string()],
        run_commands: vec!["git --version".to_string()],
        installed: false,
    }
}

fn decode(payload: &str) -> String {
    let bytes = base64::engine::general_purpose::STANDARD
        .decode(payload)
        .unwrap();
    String::from_utf8(bytes).unwrap()
}

#[test]
fn push_unconfigured_fails_with_not_configured() {
    let config = Config::new();
    assert!(matches!(push_prepare(&config), Err(SyncError::NotConfigured)));

    let mut half = Config::new();
    half.sync.repo = Some("user/tools".to_string());
    assert!(matches!(push_prepare(&half), Err(SyncError::NotConfigured)));

    let mut other_half = Config::new();
    other_half.sync.token = Some("SECRET-REDACTED".to_string());
    assert!(matches!(push_prepare(&other_half), Err(SyncError::NotConfigured)));
}

#[test]
fn push_payload_is_the_sanitized_document() {
    let mut config = configured_config();
    config.add_tool("git", git_tool()).unwrap();
    let request = push_prepare(&config).unwrap();
    assert_eq!(request.repo, "user/tools");
    assert_eq!(request.token, "SECRET-REDACTED");
    let document = decode(&request.payload);
    assert_eq!(document, sanitized(&config).to_document());
    // the encoded payload is not the raw document
    assert_ne!(request.payload, document);
    // the credential never reaches the remote document
    assert!(!document.contains("SECRET-REDACTED"));
    assert!(document.contains("\"git\""));
}

#[test]
fn push_to_fresh_remote_then_fetch_returns_the_document() {
    let mut store = FakeStore::new();
    let mut config = configured_config();
    config.add_tool("git", git_tool()).unwrap();

    let request = push_prepare(&config).unwrap();
    let expected_document = sanitized(&config).to_document();
    let meta = store.fetch_meta();
    assert!(meta.is_none());
    let put = put_request(request, meta);
    assert!(put.expected.is_none());
    let status = store.put(&put.payload, &put.expected);
    assert!(put_outcome(status, String::new()).is_ok());
    push_commit(&mut config);
    assert!(config.sync.last_sync.is_some());

    let fetched = store.fetch_meta().unwrap();
    assert_eq!(decode(&fetched.content), expected_document);
}

#[test]
fn second_push_uses_the_version_of_the_first() {
    let mut store = FakeStore::new();
    let mut config = configured_config();
    config.add_tool("git", git_tool()).unwrap();

    // first push against the absent file
    let first = push_prepare(&config).unwrap();
    let put1 = put_request(first, store.fetch_meta());
    assert!(put1.expected.is_none());
    let status1 = store.put(&put1.payload, &put1.expected);
    assert!(put_outcome(status1, String::new()).is_ok());

    // second push without a concurrent writer
    config.set_installed("git", true);
    let second = push_prepare(&config).unwrap();
    let meta = store.fetch_meta().unwrap();
    let expected_version = meta.sha.clone();
    let put2 = put_request(second, Some(meta));
    assert_eq!(put2.expected, Some(expected_version.clone()));
    assert_eq!(expected_version, "v1");
    let status2 = store.put(&put2.payload, &put2.expected);
    let outcome = put_outcome(status2, String::new());
    assert!(outcome.is_ok(), "no conflict may be raised: {:?}", outcome);
}

#[test]
fn conflicting_push_is_reported_as_conflict() {
    let mut store = FakeStore::new();
    store.put("something", &None);
    let stale = Some("v0".to_string());
    store.put("something else", &None);
    let status = store.put("late write", &stale);
    assert!(matches!(
        put_outcome(status, String::new()),
        Err(SyncError::Conflict)
    ));
}

#[test]
fn put_outcome_maps_statuses() {
    assert!(put_outcome(200, String::new()).is_ok());
    assert!(put_outcome(201, String::new()).is_ok());
    assert!(matches!(
        put_outcome(409, String::new()),
        Err(SyncError::Conflict)
    ));
    assert!(matches!(
        put_outcome(422, String::new()),
        Err(SyncError::Conflict)
    ));
    match put_outcome(500, "boom".to_string()) {
        Err(SyncError::HttpError(status, body)) => {
            assert_eq!(status, 500);
            assert_eq!(body, "boom");
        }
        other => panic!("expected the status and body verbatim, got {:?}", other),
    }
}

#[test]
fn access_outcome_maps_statuses() {
    assert!(access_outcome(200).is_ok());
    assert!(matches!(access_outcome(403), Err(SyncError::AuthError)));
    assert!(matches!(access_outcome(404), Err(SyncError::AuthError)));
}

fn encode(document: &str) -> String {
    base64::engine::general_purpose::STANDARD.encode(document.as_bytes())
}

#[test]
fn pull_of_absent_remote_is_remote_not_found() {
    let config = configured_config();
    let r = pull_apply(&config, None, None, "now".to_string());
    assert!(matches!(r, Err(SyncError::RemoteNotFound)));
}

#[test]
fn pull_of_garbage_is_deserialization_error() {
    let config = configured_config();
    let not_base64 = FetchedFile { sha: "v1".to_string(), content: "%%%".to_string() };
    assert!(matches!(
        pull_apply(&config, Some(not_base64), None, "now".to_string()),
        Err(SyncError::DeserializationError)
    ));
    let not_a_document = FetchedFile { sha: "v1".to_string(), content: encode("nonsense") };
    assert!(matches!(
        pull_apply(&config, Some(not_a_document), None, "now".to_string()),
        Err(SyncError::DeserializationError)
    ));
}

#[test]
fn pull_takes_remote_tools_and_keeps_local_settings() {
    // the remote document holds one tool "git" and foreign sync settings
    let mut remote = Config::new();
    remote.add_tool("git", git_tool()).unwrap();
    remote.sync.repo = Some("someone-else/other".to_string());
    remote.sync.auto_sync = true;
    let content = FetchedFile {
        sha: "v7".to_string(),
        content: encode(&remote.to_document()),
    };

    // the local registry is empty but configured
    let mut local = configured_config();
    local.sync.auto_sync = false;
    local.sync.last_sync = Some("1999-01-01T00:00:00Z".to_string());

    let out = pull_apply(&local, Some(content), None, "now".to_string()).unwrap();
    let merged = out.merged;
    assert_eq!(merged.tools.len(), 1);
    assert!(merged.get_tool("git").is_some());
    assert_eq!(
        merged.get_tool("git").unwrap().description,
        Some("Version control system".to_string())
    );
    // local settings survive in full, whatever the remote held
    assert_eq!(merged.sync.repo, Some("user/tools".to_string()));
    assert_eq!(merged.sync.token, Some("SECRET-REDACTED".to_string()));
    assert!(!merged.sync.auto_sync);
    // only the last-sync mark is refreshed
    assert_eq!(merged.sync.last_sync, Some("now".to_string()));
}

#[test]
fn pull_content_with_folded_newlines_still_decodes() {
    let mut remote = Config::new();
    remote.add_tool("git", git_tool()).unwrap();
    let mut folded = encode(&remote.to_document());
    folded.insert(10, '\n');
    folded.push('\n');
    let content = FetchedFile { sha: "v1".to_string(), content: folded };
    let local = configured_config();
    let out = pull_apply(&local, Some(content), None, "now".to_string()).unwrap();
    assert!(out.merged.get_tool("git").is_some());
}

#[test]
fn pull_backs_up_the_previous_document_verbatim() {
    let mut remote = Config::new();
    remote.add_tool("git", git_tool()).unwrap();
    let content = FetchedFile {
        sha: "v1".to_string(),
        content: encode(&remote.to_document()),
    };
    let local = configured_config();
    let previous = "tools:\nsync:\n  auto_sync: false\n".to_string();
    let out = pull_apply(
        &local,
        Some(content),
        Some(previous.clone()),
        "now".to_string(),
    )
    .unwrap();
    assert_eq!(out.backup, Some(previous));
    // the new document is the merged registry's canonical form
    assert_eq!(out.document, out.merged.to_document());
}

#[test]
fn pull_now_stamps_a_fresh_last_sync() {
    let mut remote = Config::new();
    remote.add_tool("git", git_tool()).unwrap();
    let content = FetchedFile {
        sha: "v1".to_string(),
        content: encode(&remote.to_document()),
    };
    let local = configured_config();
    let out = tkit::sync::pull_now(&local, Some(content), None).unwrap();
    let stamp = out.merged.sync.last_sync.clone().unwrap();
    assert!(!stamp.is_empty());
}

#[test]
fn update_token_gate_needs_only_the_repository() {
    let mut config = Config::new();
    assert!(matches!(
        tkit::sync::repo_for_update(&config),
        Err(SyncError::NotConfigured)
    ));
    config.sync.repo = Some("user/tools".to_string());
    assert_eq!(tkit::sync::repo_for_update(&config).unwrap(), "user/tools");
}

#[test]
fn create_repo_gate_needs_only_the_token() {
    let mut config = Config::new();
    assert!(matches!(
        tkit::sync::token_for_create(&config),
        Err(SyncError::NotConfigured)
    ));
    config.sync.token = Some("SECRET-REDACTED".to_string());
    assert_eq!(
        tkit::sync::token_for_create(&config).unwrap(),
        "SECRET-REDACTED"
    );
}

#[test]
fn pull_of_content_that_is_not_text_is_deserialization_error() {
    let config = configured_config();
    // valid base64, but the decoded bytes are not a text document
    let binary = base64::engine::general_purpose::STANDARD.encode([0xffu8, 0xfe, 0x00, 0x81]);
    let fetched = FetchedFile { sha: "v1".to_string(), content: binary };
    assert!(matches!(
        pull_apply(&config, Some(fetched), None, "now".to_string()),
        Err(SyncError::DeserializationError)
    ));
}

#[test]
fn status_reports_without_exposing_the_credential() {
    let mut config = configured_config();
    config.sync.auto_sync = true;
    config.sync.last_sync = Some("2024-01-02T03:04:05Z".to_string());
    let status = sync_status(&config);
    assert_eq!(status.repo, Some("user/tools".to_string()));
    assert!(status.token_present);
    assert_eq!(status.last_sync, Some("2024-01-02T03:04:05Z".to_string()));
    assert!(status.auto_sync);

    let empty = Config::new();
    let status = sync_status(&empty);
    assert_eq!(status.repo, None);
    assert!(!status.token_present);
}
