//! The command surface of `cvg`: output modes and the subcommand values
//! each verb is dispatched with, together with the daemon request paths
//! they turn into.
use crate::numeric::{dec_signed, push_i64};
use crate::text::{push_char, push_str};
use vstd::prelude::*;

verus! {

/// Global output rendering mode for commands that support multiple views.
#[derive(Clone, Copy, Debug, PartialEq, Eq, Structural)]
pub enum OutputMode {
    /// Localized human output.
    Human,
    /// Pretty JSON for scripts and agents.
    Json,
    /// Minimal plain text for shell pipelines.
    Plain,
}

/// `cvg actions` subcommands.
pub enum ActionsCommand {
    /// List the daemon's action registry, optionally for one capability.
    List { capability: Option<String> },
}

/// `cvg audit` subcommands.
pub enum AuditCommand {
    /// Verify the hash chain of the audit log, optionally on a range.
    Verify { from: Option<i64>, to: Option<i64> },
    /// Show (and with `apply`, run) the compensating action of an event.
    Compensate { seq: i64, apply: bool },
}

/// `cvg capability trust` subcommands.
pub enum TrustCommand {
    /// List entries from the baked-in + overlay trust store.
    List,
    /// Add (or replace) a trust-store entry from a JSON file.
    Add { path: String },
    /// Mark an overlay entry revoked.
    Revoke { key_id: String },
}

/// `cvg embed` subcommands.
pub enum EmbedCommand {
    /// Count the embeddings the daemon holds, optionally for one repo.
    Stats { repo: Option<String> },
    /// Load the configured model and embed a sentinel string.
    Warm,
    /// Walk a directory, embed eligible files, upsert into the store.
    Build {
        repo: String,
        root: String,
        extensions: Option<Vec<String>>,
        max_lines: Option<usize>,
    },
    /// Run a semantic-only nearest-neighbour query.
    ForTask { query: String, top_k: usize },
}

/// `cvg gates` subcommands.
pub enum GatesCommand {
    /// Show the preconditions of every gate, or of one gate.
    Show { gate: Option<String> },
}

/// `cvg llm` subcommands.
pub enum LlmCommand {
    /// Call the LLM gateway with a purpose-bound prompt.
    Call {
        purpose: String,
        model: String,
        prompt: Option<String>,
        prompt_file: Option<String>,
        max_tokens: Option<u32>,
        retrieval_set_hash: Option<String>,
        expected_schema_file: Option<String>,
    },
}

/// `cvg plan-templates` subcommands.
pub enum PlanTemplatesCommand {
    /// List every built-in template.
    List,
    /// Show metadata + required parameters for one template.
    Show { name: String },
    /// Render a template with `key=value` parameter bindings.
    Render { name: String, params: Vec<String> },
}

/// `cvg purpose` subcommands.
pub enum PurposeCommand {
    /// Register a new immutable purpose.
    Register { label: String, description: String, plan: Option<String> },
    /// List every registered purpose.
    List,
}

/// `cvg service` subcommands.
pub enum ServiceCommand {
    /// Write the user service file.
    Install { force: bool },
    /// Start or reload the user service.
    Start,
    /// Stop the user service.
    Stop,
    /// Show whether the service manager reports it as loaded.
    Status,
    /// Stop and remove the user service file.
    Uninstall,
}

// ---------------------------------------------------------------------
// Request paths
// ---------------------------------------------------------------------

/// `/v1/audit/verify?` followed by `from=<n>&` and `to=<n>&` for the bounds
/// that are given.
pub open spec fn audit_verify_path_text(from: Option<int>, to: Option<int>) -> Seq<char> {
    "/v1/audit/verify?"@ + match from {
        Some(f) => "from="@ + dec_signed(f) + seq!['&'],
        None => Seq::empty(),
    } + match to {
        Some(t) => "to="@ + dec_signed(t) + seq!['&'],
        None => Seq::empty(),
    }
}

/// The request path of `cvg audit verify`.
pub fn audit_verify_path(from: Option<i64>, to: Option<i64>) -> (r: String)
    ensures
        r@ == audit_verify_path_text(
            match from {
                Some(f) => Some(f as int),
                None => None,
            },
            match to {
                Some(t) => Some(t as int),
                None => None,
            },
        ),
{
    let mut r = String::new();
    push_str(&mut r, "/v1/audit/verify?");
    let ghost base = r@;
    if let Some(f) = from {
        push_str(&mut r, "from=");
        push_i64(&mut r, f);
        push_char(&mut r, '&');
    }
    let ghost mid = r@;
    if let Some(t) = to {
        push_str(&mut r, "to=");
        push_i64(&mut r, t);
        push_char(&mut r, '&');
    }
    proof {
        assert(r@ =~= audit_verify_path_text(
            match from {
                Some(f) => Some(f as int),
                None => None,
            },
            match to {
                Some(t) => Some(t as int),
                None => None,
            },
        ));
    }
    r
}

/// `/v1/audit/events/<seq>/compensate`, with `?apply=true` when applying.
pub open spec fn compensate_path_text(seq: int, apply: bool) -> Seq<char> {
    "/v1/audit/events/"@ + dec_signed(seq) + "/compensate"@ + if apply {
        "?apply=true"@
    } else {
        Seq::empty()
    }
}

/// The request path of `cvg audit compensate`.
pub fn compensate_path(seq: i64, apply: bool) -> (r: String)
    ensures
        r@ == compensate_path_text(seq as int, apply),
{
    let mut r = String::new();
    push_str(&mut r, "/v1/audit/events/");
    push_i64(&mut r, seq);
    push_str(&mut r, "/compensate");
    if apply {
        push_str(&mut r, "?apply=true");
    }
    proof {
        assert(r@ =~= compensate_path_text(seq as int, apply));
    }
    r
}

/// `/v1/embed/stats`, scoped with `?repo=<encoded>` when a repo is given.
pub open spec fn embed_stats_path_text(repo: Option<Seq<char>>) -> Seq<char> {
    match repo {
        Some(r) => "/v1/embed/stats?repo="@ + crate::query::url_text(r),
        None => "/v1/embed/stats"@,
    }
}

/// The request path of `cvg embed stats`.
pub fn embed_stats_path(repo: Option<&str>) -> (r: String)
    ensures
        r@ == embed_stats_path_text(
            match repo {
                Some(s) => Some(s@),
                None => None,
            },
        ),
{
    match repo {
        Some(name) => {
            let mut r = String::new();
            push_str(&mut r, "/v1/embed/stats?repo=");
            let enc = crate::query::urlencode(name);
            push_str(&mut r, enc.as_str());
            r
        },
        None => crate::text::owned("/v1/embed/stats"),
    }
}


// ---------------------------------------------------------------------
// The purpose every request is bound to
// ---------------------------------------------------------------------

/// The purpose requests are bound to when the operator names none.
pub const DEFAULT_PURPOSE_ID: &'static str = "00000000-0000-0000-0000-000000000000";

/// The purpose id sent with every request: `CONVERGIO_PURPOSE_ID` when it
/// is set and not blank, else the default.
pub open spec fn purpose_id_text(env_value: Option<Seq<char>>) -> Seq<char> {
    match env_value {
        Some(v) => if crate::text::trim(v).len() > 0 {
            v
        } else {
            DEFAULT_PURPOSE_ID@
        },
        None => DEFAULT_PURPOSE_ID@,
    }
}

/// The purpose id sent with every request.
pub fn purpose_id(env_value: Option<&str>) -> (r: String)
    ensures
        r@ == purpose_id_text(
            match env_value {
                Some(v) => Some(v@),
                None => None,
            },
        ),
{
    match env_value {
        Some(v) => {
            let t = crate::text::trimmed(v);
            if !t.as_str().is_empty() {
                return crate::text::owned(v);
            }
            crate::text::owned(DEFAULT_PURPOSE_ID)
        },
        None => crate::text::owned(DEFAULT_PURPOSE_ID),
    }
}

} // verus!
