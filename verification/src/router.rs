//! The request router: every inbound UI request is classified by method name
//! into a local handler, a forward-to-bridge case, or an unknown-method
//! rejection, through three disjoint, statically declared method registries.
//! This is the single enforcement point for which requests are even legal.

use crate::rpc::{RpcErrorInfo, WireMsg};
use crate::strutil::{dec_i64_chars_spec, i64_to_dec_string, str_eq};
use vstd::prelude::*;

verus! {

/// The statically declared query methods.
pub open spec fn query_methods_spec() -> Seq<Seq<char>> {
    seq![
        "account-info"@,
        "active-workspace-roots"@,
        "child-processes"@,
        "codex-home"@,
        "extension-info"@,
        "find-files"@,
        "get-configuration"@,
        "get-global-state"@,
        "gh-cli-status"@,
        "gh-pr-status"@,
        "git-origins"@,
        "has-custom-cli-executable"@,
        "ide-context"@,
        "inbox-items"@,
        "is-copilot-api-available"@,
        "list-automations"@,
        "list-pending-automation-run-threads"@,
        "list-pinned-threads"@,
        "local-environment"@,
        "local-environments"@,
        "locale-info"@,
        "open-in-targets"@,
        "os-info"@,
        "paths-exist"@,
        "pending-automation-runs"@,
        "read-file"@,
        "read-file-binary"@,
        "read-git-file-binary"@,
        "recommended-skills"@,
        "third-party-notices"@,
        "workspace-root-options"@,
    ]
}

/// The statically declared mutation methods.
pub open spec fn mutation_methods_spec() -> Seq<Seq<char>> {
    seq![
        "add-workspace-root-option"@,
        "apply-patch"@,
        "automation-create"@,
        "automation-delete"@,
        "automation-run-delete"@,
        "automation-run-now"@,
        "automation-update"@,
        "generate-pull-request-message"@,
        "generate-thread-title"@,
        "gh-pr-create"@,
        "git-checkout-branch"@,
        "git-create-branch"@,
        "git-push"@,
        "install-recommended-skill"@,
        "local-environment-config-save"@,
        "open-file"@,
        "remove-skill"@,
        "set-configuration"@,
        "set-global-state"@,
        "set-preferred-app"@,
        "terminal-create"@,
        "terminal-attach"@,
        "terminal-write"@,
        "terminal-resize"@,
        "terminal-close"@,
    ]
}

/// The statically declared git-worker methods.
pub open spec fn git_worker_methods_spec() -> Seq<Seq<char>> {
    seq![
        "stable-metadata"@,
        "current-branch"@,
        "upstream-branch"@,
        "branch-ahead-count"@,
        "default-branch"@,
        "base-branch"@,
        "recent-branches"@,
        "branch-changes"@,
        "status-summary"@,
        "staged-and-unstaged-changes"@,
        "untracked-changes"@,
        "tracked-uncommitted-changes"@,
        "submodule-paths"@,
        "cat-file"@,
        "index-info"@,
        "config-value"@,
        "set-config-value"@,
        "create-worktree"@,
        "restore-worktree"@,
        "delete-worktree"@,
        "apply-changes"@,
        "commit"@,
        "list-worktrees"@,
        "codex-worktree"@,
        "worktree-snapshot-ref"@,
        "git-init-repo"@,
        "invalidate-stable-metadata"@,
    ]
}

/// Whether `m` is a declared query method.
pub open spec fn is_query_method_spec(m: Seq<char>) -> bool {
    query_methods_spec().contains(m)
}

/// Whether `m` is a declared mutation method.
pub open spec fn is_mutation_method_spec(m: Seq<char>) -> bool {
    mutation_methods_spec().contains(m)
}

/// Whether `m` is a declared git-worker method.
pub open spec fn is_git_worker_method_spec(m: Seq<char>) -> bool {
    git_worker_methods_spec().contains(m)
}

/// Decides membership of `method` in `registry`.
fn in_registry(method: &str, registry: &Vec<String>) -> (r: bool)
    ensures
        r == registry@.map_values(|s: String| s@).contains(method@),
{
    let ghost keys = registry@.map_values(|s: String| s@);
    let mut i: usize = 0;
    while i < registry.len()
        invariant
            0 <= i <= registry@.len(),
            keys == registry@.map_values(|s: String| s@),
            forall|j: int| 0 <= j < i ==> keys[j] != method@,
        decreases registry@.len() - i,
    {
        if str_eq(registry[i].as_str(), method) {
            proof {
                assert(keys[i as int] == method@);
            }
            return true;
        }
        i += 1;
    }
    proof {
        if keys.contains(method@) {
            let j = keys.lemma_contains_to_index(method@);
        }
    }
    false
}

/// The three method registries, as handed to the UI.
pub struct DispatchRegistry {
    pub query_methods: Vec<String>,
    pub mutation_methods: Vec<String>,
    pub git_worker_methods: Vec<String>,
}

/// Builds the full, fixed registry tables.
pub fn dispatch_registry() -> (r: DispatchRegistry)
    ensures
        r.query_methods@.map_values(|s: String| s@) == query_methods_spec(),
        r.mutation_methods@.map_values(|s: String| s@) == mutation_methods_spec(),
        r.git_worker_methods@.map_values(|s: String| s@) == git_worker_methods_spec(),
{
    let mut q: Vec<String> = Vec::new();
    q.push(String::from_str("account-info"));
    q.push(String::from_str("active-workspace-roots"));
    q.push(String::from_str("child-processes"));
    q.push(String::from_str("codex-home"));
    q.push(String::from_str("extension-info"));
    q.push(String::from_str("find-files"));
    q.push(String::from_str("get-configuration"));
    q.push(String::from_str("get-global-state"));
    q.push(String::from_str("gh-cli-status"));
    q.push(String::from_str("gh-pr-status"));
    q.push(String::from_str("git-origins"));
    q.push(String::from_str("has-custom-cli-executable"));
    q.push(String::from_str("ide-context"));
    q.push(String::from_str("inbox-items"));
    q.push(String::from_str("is-copilot-api-available"));
    q.push(String::from_str("list-automations"));
    q.push(String::from_str("list-pending-automation-run-threads"));
    q.push(String::from_str("list-pinned-threads"));
    q.push(String::from_str("local-environment"));
    q.push(String::from_str("local-environments"));
    q.push(String::from_str("locale-info"));
    q.push(String::from_str("open-in-targets"));
    q.push(String::from_str("os-info"));
    q.push(String::from_str("paths-exist"));
    q.push(String::from_str("pending-automation-runs"));
    q.push(String::from_str("read-file"));
    q.push(String::from_str("read-file-binary"));
    q.push(String::from_str("read-git-file-binary"));
    q.push(String::from_str("recommended-skills"));
    q.push(String::from_str("third-party-notices"));
    q.push(String::from_str("workspace-root-options"));
    let mut m: Vec<String> = Vec::new();
    m.push(String::from_str("add-workspace-root-option"));
    m.push(String::from_str("apply-patch"));
    m.push(String::from_str("automation-create"));
    m.push(String::from_str("automation-delete"));
    m.push(String::from_str("automation-run-delete"));
    m.push(String::from_str("automation-run-now"));
    m.push(String::from_str("automation-update"));
    m.push(String::from_str("generate-pull-request-message"));
    m.push(String::from_str("generate-thread-title"));
    m.push(String::from_str("gh-pr-create"));
    m.push(String::from_str("git-checkout-branch"));
    m.push(String::from_str("git-create-branch"));
    m.push(String::from_str("git-push"));
    m.push(String::from_str("install-recommended-skill"));
    m.push(String::from_str("local-environment-config-save"));
    m.push(String::from_str("open-file"));
    m.push(String::from_str("remove-skill"));
    m.push(String::from_str("set-configuration"));
    m.push(String::from_str("set-global-state"));
    m.push(String::from_str("set-preferred-app"));
    m.push(String::from_str("terminal-create"));
    m.push(String::from_str("terminal-attach"));
    m.push(String::from_str("terminal-write"));
    m.push(String::from_str("terminal-resize"));
    m.push(String::from_str("terminal-close"));
    let mut g: Vec<String> = Vec::new();
    g.push(String::from_str("stable-metadata"));
    g.push(String::from_str("current-branch"));
    g.push(String::from_str("upstream-branch"));
    g.push(String::from_str("branch-ahead-count"));
    g.push(String::from_str("default-branch"));
    g.push(String::from_str("base-branch"));
    g.push(String::from_str("recent-branches"));
    g.push(String::from_str("branch-changes"));
    g.push(String::from_str("status-summary"));
    g.push(String::from_str("staged-and-unstaged-changes"));
    g.push(String::from_str("untracked-changes"));
    g.push(String::from_str("tracked-uncommitted-changes"));
    g.push(String::from_str("submodule-paths"));
    g.push(String::from_str("cat-file"));
    g.push(String::from_str("index-info"));
    g.push(String::from_str("config-value"));
    g.push(String::from_str("set-config-value"));
    g.push(String::from_str("create-worktree"));
    g.push(String::from_str("restore-worktree"));
    g.push(String::from_str("delete-worktree"));
    g.push(String::from_str("apply-changes"));
    g.push(String::from_str("commit"));
    g.push(String::from_str("list-worktrees"));
    g.push(String::from_str("codex-worktree"));
    g.push(String::from_str("worktree-snapshot-ref"));
    g.push(String::from_str("git-init-repo"));
    g.push(String::from_str("invalidate-stable-metadata"));
    let r = DispatchRegistry { query_methods: q, mutation_methods: m, git_worker_methods: g };
    proof {
        assert(r.query_methods@.map_values(|s: String| s@) =~= query_methods_spec());
        assert(r.mutation_methods@.map_values(|s: String| s@) =~= mutation_methods_spec());
        assert(r.git_worker_methods@.map_values(|s: String| s@) =~= git_worker_methods_spec());
    }
    r
}

/// Whether `method` is a declared query method.
pub fn is_known_query_method(method: &str) -> (r: bool)
    ensures
        r == is_query_method_spec(method@),
{
    let reg = dispatch_registry();
    in_registry(method, &reg.query_methods)
}

/// Whether `method` is a declared mutation method.
pub fn is_known_mutation_method(method: &str) -> (r: bool)
    ensures
        r == is_mutation_method_spec(method@),
{
    let reg = dispatch_registry();
    in_registry(method, &reg.mutation_methods)
}

/// Whether `method` is a declared git-worker method.
pub fn is_known_git_worker_method(method: &str) -> (r: bool)
    ensures
        r == is_git_worker_method_spec(method@),
{
    let reg = dispatch_registry();
    in_registry(method, &reg.git_worker_methods)
}

/// One error in a UI-facing response envelope.
pub struct HostError {
    /// A short machine-readable error code.
    pub code: String,
    /// A human-readable description.
    pub message: String,
    /// The underlying error object, serialized, when one exists.
    pub details: Option<String>,
}

/// The UI-facing response envelope: either a result or an error, correlated
/// to its request by `request_id`.
pub struct HostResponse {
    pub request_id: String,
    pub ok: bool,
    /// The result, serialized, present exactly on success.
    pub result: Option<String>,
    /// The error, present exactly on failure.
    pub error: Option<HostError>,
}

impl HostResponse {
    /// A success envelope carrying `result`.
    pub fn ok(request_id: String, result: String) -> (r: Self)
        ensures
            r.request_id@ == request_id@,
            r.ok == true,
            r.result matches Some(s) && s@ == result@,
            r.error is None,
    {
        HostResponse { request_id, ok: true, result: Some(result), error: None }
    }

    /// A failure envelope carrying `code` and `message` and no details.
    pub fn err(request_id: String, code: String, message: String) -> (r: Self)
        ensures
            r.request_id@ == request_id@,
            r.ok == false,
            r.result is None,
            r.error matches Some(e) && e.code@ == code@ && e.message@ == message@ && e.details
                is None,
    {
        HostResponse {
            request_id,
            ok: false,
            result: None,
            error: Some(HostError { code, message, details: None }),
        }
    }
}

/// The error code a worker error object maps to: a numeric JSON-RPC code
/// becomes `app_server_<code>`, a string code passes through, anything else
/// falls back to `app_server_error`.
pub open spec fn app_server_error_code_spec(e: RpcErrorInfo) -> Seq<char> {
    if e.code_num is Some {
        "app_server_"@ + dec_i64_chars_spec(e.code_num->0 as int)
    } else if e.code_str is Some {
        e.code_str->0@
    } else {
        "app_server_error"@
    }
}

/// The message a worker error object maps to, with its fallback.
pub open spec fn app_server_error_message_spec(e: RpcErrorInfo) -> Seq<char> {
    if e.message is Some {
        e.message->0@
    } else {
        "app-server request failed"@
    }
}

/// How a worker reply envelope maps to the UI-facing response: an error
/// member is translated, preserving the worker's error vocabulary and
/// carrying the raw error object as details; otherwise the result passes
/// through verbatim, an absent result becoming the empty object.
pub open spec fn envelope_response_spec(
    r: HostResponse,
    request_id: Seq<char>,
    envelope: WireMsg,
) -> bool {
    &&& r.request_id@ == request_id
    &&& if envelope.error is Some {
        let e = envelope.error->0;
        &&& r.ok == false
        &&& r.result is None
        &&& r.error matches Some(he) && he.code@ == app_server_error_code_spec(e) && he.message@
            == app_server_error_message_spec(e) && (he.details matches Some(d) && d@ == e.raw@)
    } else {
        &&& r.ok == true
        &&& r.error is None
        &&& r.result matches Some(s) && s@ == (if envelope.result is Some {
            envelope.result->0@
        } else {
            "{}"@
        })
    }
}

/// Translates a worker error object into the UI-facing failure envelope.
pub fn parse_jsonrpc_error(request_id: String, error: &RpcErrorInfo) -> (r: HostResponse)
    ensures
        r.request_id@ == request_id@,
        r.ok == false,
        r.result is None,
        r.error matches Some(he) && he.code@ == app_server_error_code_spec(*error) && he.message@
            == app_server_error_message_spec(*error) && (he.details matches Some(d) && d@
            == error.raw@),
{
    let code = match &error.code_num {
        Some(n) => {
            let mut c = String::from_str("app_server_");
            let digits = i64_to_dec_string(*n);
            c.append(digits.as_str());
            c
        },
        None => match &error.code_str {
            Some(cs) => cs.clone(),
            None => String::from_str("app_server_error"),
        },
    };
    let message = match &error.message {
        Some(msg) => msg.clone(),
        None => String::from_str("app-server request failed"),
    };
    HostResponse {
        request_id,
        ok: false,
        result: None,
        error: Some(HostError { code, message, details: Some(error.raw.clone()) }),
    }
}

/// Maps a worker reply envelope to the UI-facing response.
pub fn map_app_server_envelope(request_id: String, envelope: &WireMsg) -> (r: HostResponse)
    ensures
        envelope_response_spec(r, request_id@, *envelope),
{
    match &envelope.error {
        Some(e) => parse_jsonrpc_error(request_id, e),
        None => {
            let result = match &envelope.result {
                Some(s) => s.clone(),
                None => String::from_str("{}"),
            };
            HostResponse::ok(request_id, result)
        },
    }
}

/// How one forwarded request ended, as reported by the runtime.
pub enum ForwardOutcome {
    /// No bridge is available: the worker process never started.
    Unavailable,
    /// The transport failed or the request timed out; the description of the
    /// failure is carried verbatim.
    Failed(String),
    /// The worker replied with this envelope.
    Replied(WireMsg),
}

/// Builds the UI-facing response for a forwarded request.  A request with no
/// available bridge fails fast with `app_server_unavailable` — it is never
/// silently dropped or queued; a transport failure becomes
/// `app_server_error`; a reply is mapped through
/// [`map_app_server_envelope`].
pub fn forward_host_request(request_id: String, method: &str, outcome: &ForwardOutcome) -> (r:
    HostResponse)
    ensures
        match outcome {
            ForwardOutcome::Unavailable => r.request_id@ == request_id@ && r.ok == false && r.result
                is None && (r.error matches Some(e) && e.code@ == "app_server_unavailable"@
                && e.message@ == "app-server bridge is not available for method '"@ + method@
                + "'"@ && e.details is None),
            ForwardOutcome::Failed(why) => r.request_id@ == request_id@ && r.ok == false
                && r.result is None && (r.error matches Some(e) && e.code@ == "app_server_error"@
                && e.message@ == why@ && e.details is None),
            ForwardOutcome::Replied(envelope) => envelope_response_spec(r, request_id@, *envelope),
        },
{
    match outcome {
        ForwardOutcome::Unavailable => {
            let mut message = String::from_str("app-server bridge is not available for method '");
            message.append(method);
            message.append("'");
            let r = HostResponse::err(
                request_id,
                String::from_str("app_server_unavailable"),
                message,
            );
            proof {
                assert(r.error->0.message@ == "app-server bridge is not available for method '"@
                    + method@ + "'"@);
            }
            r
        },
        ForwardOutcome::Failed(why) => HostResponse::err(
            request_id,
            String::from_str("app_server_error"),
            why.clone(),
        ),
        ForwardOutcome::Replied(envelope) => map_app_server_envelope(request_id, envelope),
    }
}

/// Where one inbound query request goes.
pub enum QueryRoute {
    GetConfiguration,
    GetGlobalState,
    Registry,
    OsInfo,
    LocalEnvironment,
    PathsExist,
    ReadFile,
    /// A declared query method with no local handler: forward to the bridge.
    Forward,
    /// Not a declared query method: reject.
    Unknown,
}

/// The query classification: local handlers are matched first, then the
/// query registry decides between forwarding and rejection.
pub open spec fn classify_query_spec(m: Seq<char>) -> QueryRoute {
    if m == "get-configuration"@ {
        QueryRoute::GetConfiguration
    } else if m == "get-global-state"@ {
        QueryRoute::GetGlobalState
    } else if m == "dispatch-registry"@ {
        QueryRoute::Registry
    } else if m == "os-info"@ {
        QueryRoute::OsInfo
    } else if m == "local-environment"@ {
        QueryRoute::LocalEnvironment
    } else if m == "paths-exist"@ {
        QueryRoute::PathsExist
    } else if m == "read-file"@ {
        QueryRoute::ReadFile
    } else if is_query_method_spec(m) {
        QueryRoute::Forward
    } else {
        QueryRoute::Unknown
    }
}

/// Classifies one inbound query request by method name.
pub fn classify_query(method: &str) -> (r: QueryRoute)
    ensures
        r == classify_query_spec(method@),
{
    if str_eq(method, "get-configuration") {
        QueryRoute::GetConfiguration
    } else if str_eq(method, "get-global-state") {
        QueryRoute::GetGlobalState
    } else if str_eq(method, "dispatch-registry") {
        QueryRoute::Registry
    } else if str_eq(method, "os-info") {
        QueryRoute::OsInfo
    } else if str_eq(method, "local-environment") {
        QueryRoute::LocalEnvironment
    } else if str_eq(method, "paths-exist") {
        QueryRoute::PathsExist
    } else if str_eq(method, "read-file") {
        QueryRoute::ReadFile
    } else if is_known_query_method(method) {
        QueryRoute::Forward
    } else {
        QueryRoute::Unknown
    }
}

/// Where one inbound mutation request goes.
pub enum MutationRoute {
    SetConfiguration,
    SetGlobalState,
    TerminalCreate,
    TerminalAttach,
    TerminalWrite,
    TerminalResize,
    TerminalClose,
    /// A declared mutation method with no local handler: forward to the
    /// bridge.
    Forward,
    /// Not a declared mutation method: reject.
    Unknown,
}

/// The mutation classification: local handlers — the state store and the
/// five session-lifecycle methods — are matched first, then the mutation
/// registry decides between forwarding and rejection.
pub open spec fn classify_mutation_spec(m: Seq<char>) -> MutationRoute {
    if m == "set-configuration"@ {
        MutationRoute::SetConfiguration
    } else if m == "set-global-state"@ {
        MutationRoute::SetGlobalState
    } else if m == "terminal-create"@ {
        MutationRoute::TerminalCreate
    } else if m == "terminal-attach"@ {
        MutationRoute::TerminalAttach
    } else if m == "terminal-write"@ {
        MutationRoute::TerminalWrite
    } else if m == "terminal-resize"@ {
        MutationRoute::TerminalResize
    } else if m == "terminal-close"@ {
        MutationRoute::TerminalClose
    } else if is_mutation_method_spec(m) {
        MutationRoute::Forward
    } else {
        MutationRoute::Unknown
    }
}

/// Classifies one inbound mutation request by method name.
pub fn classify_mutation(method: &str) -> (r: MutationRoute)
    ensures
        r == classify_mutation_spec(method@),
{
    if str_eq(method, "set-configuration") {
        MutationRoute::SetConfiguration
    } else if str_eq(method, "set-global-state") {
        MutationRoute::SetGlobalState
    } else if str_eq(method, "terminal-create") {
        MutationRoute::TerminalCreate
    } else if str_eq(method, "terminal-attach") {
        MutationRoute::TerminalAttach
    } else if str_eq(method, "terminal-write") {
        MutationRoute::TerminalWrite
    } else if str_eq(method, "terminal-resize") {
        MutationRoute::TerminalResize
    } else if str_eq(method, "terminal-close") {
        MutationRoute::TerminalClose
    } else if is_known_mutation_method(method) {
        MutationRoute::Forward
    } else {
        MutationRoute::Unknown
    }
}

/// The rejection for a method in neither the local handlers nor the query
/// registry: the offending name is carried in the message.
pub fn unknown_query_response(request_id: String, method: &str) -> (r: HostResponse)
    ensures
        r.request_id@ == request_id@,
        r.ok == false,
        r.result is None,
        r.error matches Some(e) && e.code@ == "query_method_unknown"@ && e.message@
            == "query method '"@ + method@ + "' is not registered"@ && e.details is None,
{
    let mut message = String::from_str("query method '");
    message.append(method);
    message.append("' is not registered");
    let r = HostResponse::err(request_id, String::from_str("query_method_unknown"), message);
    proof {
        assert(r.error->0.message@ == "query method '"@ + method@ + "' is not registered"@);
    }
    r
}

/// The rejection for a method in neither the local handlers nor the
/// mutation registry.
pub fn unknown_mutation_response(request_id: String, method: &str) -> (r: HostResponse)
    ensures
        r.request_id@ == request_id@,
        r.ok == false,
        r.result is None,
        r.error matches Some(e) && e.code@ == "mutation_method_unknown"@ && e.message@
            == "mutation method '"@ + method@ + "' is not registered"@ && e.details is None,
{
    let mut message = String::from_str("mutation method '");
    message.append(method);
    message.append("' is not registered");
    let r = HostResponse::err(request_id, String::from_str("mutation_method_unknown"), message);
    proof {
        assert(r.error->0.message@ == "mutation method '"@ + method@ + "' is not registered"@);
    }
    r
}

/// One response from a delegated worker, correlated by worker and request.
pub struct WorkerResponse {
    pub worker_id: String,
    pub request_id: String,
    pub ok: bool,
    pub result: Option<String>,
    pub error: Option<HostError>,
}

/// Whether a worker identifier names the one wired-in worker.
pub fn is_git_worker(worker_id: &str) -> (r: bool)
    ensures
        r == (worker_id@ == "git"@),
{
    str_eq(worker_id, "git")
}

/// The failure envelope for a message addressed to a worker that is not
/// wired in.
pub fn worker_unsupported_response(worker_id: String, request_id: String) -> (r: WorkerResponse)
    ensures
        r.worker_id@ == worker_id@,
        r.request_id@ == request_id@,
        r.ok == false,
        r.result is None,
        r.error matches Some(e) && e.code@ == "worker_not_supported"@ && e.message@
            == "only git worker is currently wired in tauri rewrite"@ && e.details is None,
{
    WorkerResponse {
        worker_id,
        request_id,
        ok: false,
        result: None,
        error: Some(
            HostError {
                code: String::from_str("worker_not_supported"),
                message: String::from_str("only git worker is currently wired in tauri rewrite"),
                details: None,
            },
        ),
    }
}

/// Where a message sent straight from the view goes.
pub enum ViewRoute {
    /// The payload named no method at all.
    MissingMethod,
    /// The method is in neither the query nor the mutation registry.
    UnknownMethod,
    /// A declared method: forward to the bridge.
    Forward,
}

/// Routes a raw message from the view: it is forwarded exactly when it names
/// a declared query or mutation method.
pub fn view_message_route(method: Option<&str>) -> (r: ViewRoute)
    ensures
        match method {
            None => r is MissingMethod,
            Some(m) => {
                if is_query_method_spec(m@) || is_mutation_method_spec(m@) {
                    r is Forward
                } else {
                    r is UnknownMethod
                }
            },
        },
{
    match method {
        None => ViewRoute::MissingMethod,
        Some(m) => {
            if is_known_query_method(m) || is_known_mutation_method(m) {
                ViewRoute::Forward
            } else {
                ViewRoute::UnknownMethod
            }
        },
    }
}

/// The defaults applied to a terminal-create request: working directory
/// `"."`, 120 columns, 30 rows; sizes are taken modulo the terminal-size
/// range, as the wire value is wider than the terminal's.
pub fn terminal_create_defaults(cwd: Option<String>, cols: Option<u64>, rows: Option<u64>) -> (r: (
    String,
    u16,
    u16,
))
    ensures
        r.0@ == (if cwd is Some {
            cwd->0@
        } else {
            "."@
        }),
        r.1 == (if cols is Some {
            cols->0 as u16
        } else {
            120u16
        }),
        r.2 == (if rows is Some {
            rows->0 as u16
        } else {
            30u16
        }),
{
    let c = match cwd {
        Some(s) => s,
        None => String::from_str("."),
    };
    let co: u16 = match cols {
        Some(v) => #[verifier::truncate] (v as u16),
        None => 120,
    };
    let ro: u16 = match rows {
        Some(v) => #[verifier::truncate] (v as u16),
        None => 30,
    };
    (c, co, ro)
}

} // verus!
