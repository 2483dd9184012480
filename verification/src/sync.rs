//! The sync engine's decision logic: preparing a push, interpreting
//! the provider's answer, merging a pulled document, and the status
//! report. Network and file plumbing stays outside; these functions
//! compute from plain values to plain values, so every policy —
//! sanitizing the credential, optimistic concurrency, retaining local
//! settings on pull, backing up before a destructive write — is
//! stated in a contract and proved.

use vstd::prelude::*;

use base64::Engine;

use crate::codec::emit_doc;
use crate::codec::p_doc;
use crate::model::Config;
use crate::model::ConfigView;
use crate::model::SyncConfig;
use crate::model::SyncView;

verus! {

/// What can go wrong during synchronization.
#[derive(Debug, Clone, PartialEq, Eq)]
pub enum SyncError {
    /// Repository or credential missing: setup has to run first.
    NotConfigured,
    /// The remote rejected the credential or the repository probe.
    AuthError,
    /// The remote rejected the request; status and body kept verbatim.
    HttpError(u16, String),
    /// The expected content version did not match on a conditional
    /// write.
    Conflict,
    /// The remote document does not exist.
    RemoteNotFound,
    /// A document, local or remote, could not be understood.
    DeserializationError,
    /// A filesystem operation failed.
    IoError,
}

/// What the name of the base64 text of a string stands for.
pub uninterp spec fn b64_of(s: Seq<char>) -> Seq<char>;

/// Relies on base64's standard-alphabet engine (`STANDARD.encode` of
/// the string's bytes): the result is a function of those bytes alone.
#[verifier::external_body]
fn b64_encode(s: &str) -> (r: String)
    ensures
        r@ == b64_of(s@),
{
    base64::engine::general_purpose::STANDARD.encode(s.as_bytes())
}

/// Relies on base64's standard-alphabet engine (`STANDARD.decode`)
/// and on `String::from_utf8` for the result. This engine demands
/// canonical padding and rejects nonzero trailing bits, so decoding
/// succeeds exactly on the canonical encoding of some text, and then
/// returns that text.
#[verifier::external_body]
fn b64_decode(s: &str) -> (r: Option<String>)
    ensures
        r is None ==> (forall|t: Seq<char>| s@ != b64_of(t)),
        r matches Some(v) ==> s@ == b64_of(v@),
        r matches Some(v) ==> (forall|t: Seq<char>| s@ == b64_of(t) ==> v@ == t),
{
    match base64::engine::general_purpose::STANDARD.decode(s) {
        Ok(bytes) => match String::from_utf8(bytes) {
            Ok(text) => Some(text),
            Err(_) => None,
        },
        Err(_) => None,
    }
}

/// Relies on chrono's clock (`Utc::now().to_rfc3339()`): the current
/// time; nothing is assumed of it beyond being nonempty text.
#[verifier::external_body]
fn now_rfc3339() -> (r: String)
    ensures
        r@.len() > 0,
{
    chrono::Utc::now().to_rfc3339()
}

/// A registry view with the credential cleared, as it is sent to the
/// remote store.
pub open spec fn sanitized_view(c: ConfigView) -> ConfigView {
    ConfigView { tools: c.tools, sync: SyncView { token: None, ..c.sync } }
}

/// Clones an optional string.
fn clone_opt_string(o: &Option<String>) -> (r: Option<String>)
    ensures
        r == *o,
{
    match o {
        Some(s) => Some(s.clone()),
        None => None,
    }
}

/// A copy of the registry with the credential cleared; everything
/// else is kept.
pub fn sanitized(c: &Config) -> (r: Config)
    ensures
        r@ == sanitized_view(c@),
{
    let r = Config {
        tools: c.list_tools(),
        sync: SyncConfig {
            repo: clone_opt_string(&c.sync.repo),
            token: None,
            last_sync: clone_opt_string(&c.sync.last_sync),
            auto_sync: c.sync.auto_sync,
        },
    };
    proof {
        assert(r@ =~= sanitized_view(c@));
    }
    r
}

/// The repository and credential, or `NotConfigured` when either is
/// absent.
pub fn remote_target(c: &Config) -> (r: Result<(String, String), SyncError>)
    ensures
        (c@.sync.repo is None || c@.sync.token is None) <==> (r matches Err(
            SyncError::NotConfigured,
        )),
        r matches Err(e) ==> (e matches SyncError::NotConfigured),
        r matches Ok(p) ==> (c@.sync.repo == Some(p.0@) && c@.sync.token == Some(p.1@)),
{
    match (&c.sync.repo, &c.sync.token) {
        (Some(repo), Some(token)) => Ok((repo.clone(), token.clone())),
        _ => Err(SyncError::NotConfigured),
    }
}

/// What a push sends: the target and the encoded sanitized document.
pub struct PushRequest {
    pub repo: String,
    pub token: String,
    pub payload: String,
}

/// What a fetch of the remote document returned: its content version
/// tag and its base64 content.
pub struct FetchedFile {
    pub sha: String,
    pub content: String,
}

/// A conditional write: the payload together with the version the
/// remote is expected to be at, if any.
pub struct PutRequest {
    pub repo: String,
    pub token: String,
    pub payload: String,
    pub expected: Option<String>,
}

/// Prepares a push: requires the target to be configured and encodes
/// the sanitized document. Fails with `NotConfigured`, and only then,
/// when repository or credential is absent; the registry itself is
/// never touched.
pub fn push_prepare(c: &Config) -> (r: Result<PushRequest, SyncError>)
    ensures
        (c@.sync.repo is None || c@.sync.token is None) <==> (r matches Err(
            SyncError::NotConfigured,
        )),
        r matches Err(e) ==> (e matches SyncError::NotConfigured),
        r matches Ok(p) ==> (c@.sync.repo == Some(p.repo@) && c@.sync.token == Some(p.token@)
            && p.payload@ == b64_of(emit_doc(sanitized_view(c@)))),
{
    match remote_target(c) {
        Ok((repo, token)) => {
            let safe = sanitized(c);
            let doc = safe.to_document();
            let payload = b64_encode(doc.as_str());
            Ok(PushRequest { repo, token, payload })
        },
        Err(e) => Err(e),
    }
}

/// Binds a push to the version the fetch discovered: absence of the
/// remote file means an unconditional write.
pub fn put_request(req: PushRequest, meta: Option<FetchedFile>) -> (r: PutRequest)
    ensures
        r.repo == req.repo,
        r.token == req.token,
        r.payload == req.payload,
        match meta {
            Some(m) => r.expected == Some(m.sha),
            None => r.expected is None,
        },
{
    let expected = match meta {
        Some(m) => Some(m.sha),
        None => None,
    };
    PutRequest { repo: req.repo, token: req.token, payload: req.payload, expected }
}

/// Interprets the provider's answer to a conditional write: success
/// for any success status, `Conflict` for a version mismatch, and the
/// status with its body verbatim otherwise.
pub fn put_outcome(status: u16, body: String) -> (r: Result<(), SyncError>)
    ensures
        (200 <= status < 300) <==> r is Ok,
        (status == 409 || status == 422) ==> (r matches Err(e) && e == SyncError::Conflict),
        (!(200 <= status < 300) && status != 409 && status != 422) ==> (r matches Err(e) && e
            == SyncError::HttpError(status, body)),
{
    if 200 <= status && status < 300 {
        Ok(())
    } else if status == 409 || status == 422 {
        Err(SyncError::Conflict)
    } else {
        Err(SyncError::HttpError(status, body))
    }
}

/// Interprets the provider's answer to the access probe used before
/// persisting a credential.
pub fn access_outcome(status: u16) -> (r: Result<(), SyncError>)
    ensures
        (200 <= status < 300) <==> r is Ok,
        r matches Err(e) ==> e == SyncError::AuthError,
{
    if 200 <= status && status < 300 {
        Ok(())
    } else {
        Err(SyncError::AuthError)
    }
}

/// Sets the last-sync mark to the given instant; nothing else moves.
pub fn stamp_last_sync(c: &mut Config, now: String)
    ensures
        final(c)@.tools == old(c)@.tools,
        final(c)@.sync == (SyncView { last_sync: Some(now@), ..old(c)@.sync }),
        final(c).wf() == old(c).wf(),
{
    c.sync.last_sync = Some(now);
    proof {
        assert(final(c)@.sync =~= (SyncView { last_sync: Some(now@), ..old(c)@.sync }));
    }
}

/// After a successful push: records the current time as the last
/// sync. Tools and the remote settings stay as they were.
pub fn push_commit(c: &mut Config)
    ensures
        final(c)@.tools == old(c)@.tools,
        final(c)@.sync.repo == old(c)@.sync.repo,
        final(c)@.sync.token == old(c)@.sync.token,
        final(c)@.sync.auto_sync == old(c)@.sync.auto_sync,
        final(c)@.sync.last_sync matches Some(stamp) && stamp.len() > 0,
        final(c).wf() == old(c).wf(),
{
    let now = now_rfc3339();
    stamp_last_sync(c, now);
}

/// Merges a pulled registry: the remote tools win in full, while the
/// local sync settings survive verbatim — only the last-sync mark is
/// refreshed to the given instant.
pub fn merge_remote(local: &Config, remote: Config, now: String) -> (r: Config)
    requires
        remote.wf(),
    ensures
        r@.tools == remote@.tools,
        r@.sync.repo == local@.sync.repo,
        r@.sync.token == local@.sync.token,
        r@.sync.auto_sync == local@.sync.auto_sync,
        r@.sync.last_sync == Some(now@),
        r.wf(),
{
    let mut merged = remote;
    merged.sync = SyncConfig {
        repo: clone_opt_string(&local.sync.repo),
        token: clone_opt_string(&local.sync.token),
        last_sync: Some(now),
        auto_sync: local.sync.auto_sync,
    };
    merged
}

/// What a pull leaves behind: the merged registry, the backup of the
/// pre-pull document, and the new document to write.
pub struct PullOutcome {
    pub merged: Config,
    pub backup: Option<String>,
    pub document: String,
}

/// Strips the newlines that the provider folds into the base64
/// content.
pub open spec fn strip_nl(s: Seq<char>) -> Seq<char>
    decreases s.len(),
{
    if s.len() == 0 {
        Seq::empty()
    } else if s[0] == '\n' {
        strip_nl(s.skip(1))
    } else {
        seq![s[0]] + strip_nl(s.skip(1))
    }
}

fn strip_newlines_from(v: &Vec<char>, i: usize) -> (r: Vec<char>)
    requires
        i <= v@.len(),
    ensures
        r@ == strip_nl(v@.skip(i as int)),
    decreases v@.len() - i,
{
    proof {
        assert(v@.skip(i as int).len() == v@.len() - i);
    }
    if i >= v.len() {
        let empty: Vec<char> = Vec::new();
        proof {
            assert(empty@ =~= strip_nl(v@.skip(i as int)));
        }
        empty
    } else {
        let c = v[i];
        proof {
            assert(v@.skip(i as int)[0] == c);
            assert(v@.skip(i as int).skip(1) =~= v@.skip(i + 1));
        }
        let mut tail = strip_newlines_from(v, i + 1);
        if c == '\n' {
            tail
        } else {
            let ghost t0 = tail@;
            tail.insert(0, c);
            proof {
                assert(tail@ =~= seq![c] + t0);
            }
            tail
        }
    }
}

/// The content with every newline removed.
fn strip_newlines(s: &str) -> (r: String)
    ensures
        r@ == strip_nl(s@),
{
    let n = s.unicode_len();
    let mut v: Vec<char> = Vec::new();
    let mut i: usize = 0;
    while i < n
        invariant
            i <= n,
            n == s@.len(),
            v@ =~= s@.subrange(0, i as int),
        decreases n - i,
    {
        v.push(s.get_char(i));
        proof {
            assert(s@.subrange(0, i + 1) =~= s@.subrange(0, i as int).push(s@[i as int]));
        }
        i += 1;
    }
    proof {
        assert(s@.subrange(0, n as int) =~= s@);
        assert(v@.skip(0) =~= v@);
    }
    let stripped = strip_newlines_from(&v, 0);
    crate::codec::chars_to_string(&stripped)
}

/// The whole compute step of a pull. An absent remote document is
/// `RemoteNotFound`; content that does not decode or parse is
/// `DeserializationError`. On success the merged registry carries the
/// remote tools and the local settings with a fresh last-sync mark,
/// the backup holds the pre-pull local document verbatim, and the
/// document is the merged registry's canonical form.
pub fn pull_apply(
    local: &Config,
    fetched: Option<FetchedFile>,
    current_doc: Option<String>,
    now: String,
) -> (r: Result<PullOutcome, SyncError>)
    ensures
        (fetched is None) <==> (r matches Err(e) && e == SyncError::RemoteNotFound),
        r matches Err(e) ==> (e == SyncError::RemoteNotFound || e
            == SyncError::DeserializationError),
        r matches Ok(out) ==> (out.merged@.sync.repo == local@.sync.repo && out.merged@.sync.token
            == local@.sync.token && out.merged@.sync.auto_sync == local@.sync.auto_sync
            && out.merged@.sync.last_sync == Some(now@) && out.merged.wf() && out.backup
            == current_doc && out.document@ == emit_doc(out.merged@)),
        fetched matches Some(f) ==> ((r is Ok) <==> (exists|t: Seq<char>|
            strip_nl(f.content@) == b64_of(t) && p_doc(t) is Some)),
        fetched matches Some(f) ==> (forall|t: Seq<char>|
            strip_nl(f.content@) == b64_of(t) ==> (match p_doc(t) {
                Some(cv) => r matches Ok(out) && out.merged@.tools == cv.tools,
                None => r matches Err(e) && e == SyncError::DeserializationError,
            })),
{
    match fetched {
        None => Err(SyncError::RemoteNotFound),
        Some(f) => {
            let stripped = strip_newlines(f.content.as_str());
            match b64_decode(stripped.as_str()) {
                None => Err(SyncError::DeserializationError),
                Some(text) => match Config::from_document(text.as_str()) {
                    None => Err(SyncError::DeserializationError),
                    Some(remote) => {
                        let merged = merge_remote(local, remote, now);
                        let document = merged.to_document();
                        Ok(PullOutcome { merged, backup: current_doc, document })
                    },
                },
            }
        },
    }
}

/// A pull's compute step against the engine's own clock: as
/// `pull_apply`, with the last-sync mark refreshed to the time of the
/// call.
pub fn pull_now(local: &Config, fetched: Option<FetchedFile>, current_doc: Option<String>) -> (r:
    Result<PullOutcome, SyncError>)
    ensures
        (fetched is None) <==> (r matches Err(e) && e == SyncError::RemoteNotFound),
        r matches Err(e) ==> (e == SyncError::RemoteNotFound || e
            == SyncError::DeserializationError),
        r matches Ok(out) ==> (out.merged@.sync.repo == local@.sync.repo && out.merged@.sync.token
            == local@.sync.token && out.merged@.sync.auto_sync == local@.sync.auto_sync
            && (out.merged@.sync.last_sync matches Some(stamp) && stamp.len() > 0)
            && out.merged.wf() && out.backup == current_doc && out.document@ == emit_doc(
            out.merged@,
        )),
        fetched matches Some(f) ==> ((r is Ok) <==> (exists|t: Seq<char>|
            strip_nl(f.content@) == b64_of(t) && p_doc(t) is Some)),
        fetched matches Some(f) ==> (forall|t: Seq<char>|
            strip_nl(f.content@) == b64_of(t) ==> (match p_doc(t) {
                Some(cv) => r matches Ok(out) && out.merged@.tools == cv.tools,
                None => r matches Err(e) && e == SyncError::DeserializationError,
            })),
{
    let now = now_rfc3339();
    pull_apply(local, fetched, current_doc, now)
}

/// The read-only status report: the configured repository, whether a
/// credential is present (never the credential itself), the last sync
/// time and the auto-sync flag.
pub struct SyncStatus {
    pub repo: Option<String>,
    pub token_present: bool,
    pub last_sync: Option<String>,
    pub auto_sync: bool,
}

/// Reports the sync settings without exposing the credential.
pub fn sync_status(c: &Config) -> (r: SyncStatus)
    ensures
        r.repo.deep_view() == c@.sync.repo,
        r.token_present == (c@.sync.token is Some),
        r.last_sync.deep_view() == c@.sync.last_sync,
        r.auto_sync == c@.sync.auto_sync,
{
    SyncStatus {
        repo: clone_opt_string(&c.sync.repo),
        token_present: c.sync.token.is_some(),
        last_sync: clone_opt_string(&c.sync.last_sync),
        auto_sync: c.sync.auto_sync,
    }
}

/// Records a validated repository and credential; called only after
/// the access probe succeeded, so a failed validation never reaches
/// the stored settings.
pub fn apply_remote_settings(c: &mut Config, repo: String, token: String)
    ensures
        final(c)@.tools == old(c)@.tools,
        final(c)@.sync == (SyncView {
            repo: Some(repo@),
            token: Some(token@),
            ..old(c)@.sync
        }),
        final(c).wf() == old(c).wf(),
{
    c.sync.repo = Some(repo);
    c.sync.token = Some(token);
    proof {
        assert(final(c)@.sync =~= (SyncView {
            repo: Some(repo@),
            token: Some(token@),
            ..old(c)@.sync
        }));
    }
}

/// The configured repository, required before a credential update.
pub fn repo_for_update(c: &Config) -> (r: Result<String, SyncError>)
    ensures
        (c@.sync.repo is None) <==> (r matches Err(e) && e == SyncError::NotConfigured),
        r matches Err(e) ==> e == SyncError::NotConfigured,
        r matches Ok(repo) ==> c@.sync.repo == Some(repo@),
{
    match &c.sync.repo {
        Some(repo) => Ok(repo.clone()),
        None => Err(SyncError::NotConfigured),
    }
}

/// Records a validated replacement credential; nothing else moves.
pub fn apply_token(c: &mut Config, token: String)
    ensures
        final(c)@.tools == old(c)@.tools,
        final(c)@.sync == (SyncView { token: Some(token@), ..old(c)@.sync }),
        final(c).wf() == old(c).wf(),
{
    c.sync.token = Some(token);
    proof {
        assert(final(c)@.sync =~= (SyncView { token: Some(token@), ..old(c)@.sync }));
    }
}

/// The stored credential, required before creating a repository.
pub fn token_for_create(c: &Config) -> (r: Result<String, SyncError>)
    ensures
        (c@.sync.token is None) <==> (r matches Err(e) && e == SyncError::NotConfigured),
        r matches Err(e) ==> e == SyncError::NotConfigured,
        r matches Ok(token) ==> c@.sync.token == Some(token@),
{
    match &c.sync.token {
        Some(token) => Ok(token.clone()),
        None => Err(SyncError::NotConfigured),
    }
}

/// Records the repository that was just created for the user.
pub fn apply_created_repo(c: &mut Config, full_name: String)
    ensures
        final(c)@.tools == old(c)@.tools,
        final(c)@.sync == (SyncView { repo: Some(full_name@), ..old(c)@.sync }),
        final(c).wf() == old(c).wf(),
{
    c.sync.repo = Some(full_name);
    proof {
        assert(final(c)@.sync =~= (SyncView { repo: Some(full_name@), ..old(c)@.sync }));
    }
}

} // verus!
