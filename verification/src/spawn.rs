//! `cvg agent spawn`: registering the spawned agent, its heartbeats, and
//! the token usage read from the runner's stream of JSON events.
use crate::text::{opt_text, owned, push_str, trim, trimmed};
use vstd::prelude::*;

verus! {

// ---------------------------------------------------------------------
// Registration and heartbeats
// ---------------------------------------------------------------------

/// Seconds between two heartbeats while the runner is alive (the reaper's
/// window, so that a missed beat is seen before the agent times out).
pub const HEARTBEAT_INTERVAL_SECS: u64 = 60;

/// Where spawned agents are registered.
pub const REGISTER_PATH: &'static str = "/v1/agent-registry/agents";

/// The `metadata` of a registration.
pub struct RegisterMetadata {
    pub spawned_by: String,
    pub current_task_id: String,
}

/// The body of `POST /v1/agent-registry/agents`.
pub struct RegisterBody {
    pub id: String,
    pub kind: String,
    pub name: String,
    pub host: String,
    pub capabilities: Vec<String>,
    pub metadata: RegisterMetadata,
}

/// The registration of agent `agent_id`, run by `vendor` with `model` on
/// `host` for task `task_id`: named `id (vendor/model)`, able to code and
/// test, spawned by `cvg agent spawn`.
pub fn build_register_body(agent_id: &str, vendor: &str, model: &str, host: &str, task_id: &str) -> (b:
    RegisterBody)
    ensures
        b.id@ == agent_id@,
        b.kind@ == vendor@,
        b.name@ == agent_id@ + " ("@ + vendor@ + "/"@ + model@ + ")"@,
        b.host@ == host@,
        b.capabilities@.map_values(|s: String| s@) == seq!["code"@, "test"@],
        b.metadata.spawned_by@ == "cvg agent spawn"@,
        b.metadata.current_task_id@ == task_id@,
{
    let mut name = owned(agent_id);
    push_str(&mut name, " (");
    push_str(&mut name, vendor);
    push_str(&mut name, "/");
    push_str(&mut name, model);
    push_str(&mut name, ")");
    let mut capabilities: Vec<String> = Vec::new();
    capabilities.push(owned("code"));
    capabilities.push(owned("test"));
    proof {
        assert(capabilities@.map_values(|s: String| s@) =~= seq!["code"@, "test"@]);
    }
    RegisterBody {
        id: owned(agent_id),
        kind: owned(vendor),
        name,
        host: owned(host),
        capabilities,
        metadata: RegisterMetadata {
            spawned_by: owned("cvg agent spawn"),
            current_task_id: owned(task_id),
        },
    }
}

/// The body of a heartbeat.
pub struct HeartbeatBody {
    pub status: String,
    /// Sent only when the agent works on a task.
    pub current_task_id: Option<String>,
}

/// A heartbeat reporting `status`, and the task when there is one.
pub fn build_heartbeat_body(task_id: Option<&str>, status: &str) -> (b: HeartbeatBody)
    ensures
        b.status@ == status@,
        match task_id {
            Some(t) => b.current_task_id matches Some(c) && c@ == t@,
            None => b.current_task_id is None,
        },
{
    HeartbeatBody {
        status: owned(status),
        current_task_id: match task_id {
            Some(t) => Some(owned(t)),
            None => None,
        },
    }
}

/// Where the heartbeats of `agent_id` go.
pub fn heartbeat_path(agent_id: &str) -> (r: String)
    ensures
        r@ == "/v1/agent-registry/agents/"@ + agent_id@ + "/heartbeat"@,
{
    let mut r = owned("/v1/agent-registry/agents/");
    push_str(&mut r, agent_id);
    push_str(&mut r, "/heartbeat");
    r
}

/// The host label of the registry: `$HOSTNAME`, else `$HOST`, else what
/// `hostname` printed (trimmed), each only when it is not empty, else
/// `unknown`.
pub open spec fn host_of(
    hostname_var: Option<Seq<char>>,
    host_var: Option<Seq<char>>,
    command_output: Option<Seq<char>>,
) -> Seq<char> {
    if hostname_var matches Some(h) && h.len() > 0 {
        hostname_var.unwrap()
    } else if host_var matches Some(h) && h.len() > 0 {
        host_var.unwrap()
    } else if command_output matches Some(o) && trim(o).len() > 0 {
        trim(command_output.unwrap())
    } else {
        "unknown"@
    }
}

/// An optional text as a sequence of characters.
pub open spec fn opt_chars(o: Option<&str>) -> Option<Seq<char>> {
    match o {
        Some(s) => Some(s@),
        None => None,
    }
}

/// Picks the host label from the environment and the output of
/// `hostname`; never empty.
pub fn choose_host(hostname_var: Option<&str>, host_var: Option<&str>, command_output: Option<&str>) -> (r:
    String)
    ensures
        r@ == host_of(opt_chars(hostname_var), opt_chars(host_var), opt_chars(command_output)),
        r@.len() > 0,
{
    match hostname_var {
        Some(h) => if !h.is_empty() {
            return owned(h);
        },
        None => {},
    }
    match host_var {
        Some(h) => if !h.is_empty() {
            return owned(h);
        },
        None => {},
    }
    match command_output {
        Some(o) => {
            let t = trimmed(o);
            if !t.as_str().is_empty() {
                return t;
            }
        },
        None => {},
    }
    proof {
        reveal_strlit("unknown");
    }
    owned("unknown")
}


// ---------------------------------------------------------------------
// Token usage of the runner's event stream
// ---------------------------------------------------------------------

/// A JSON value of the runner's stream.
pub enum Json {
    Null,
    Bool(bool),
    /// A number: its reading as a `u64` when it is a non-negative integer
    /// that fits, and its text as the parser prints it.
    Number { as_u64: Option<u64>, text: String },
    Str(String),
    Array(Vec<Json>),
    /// The entries of an object, in the order the parser yields them.
    Object(Vec<(String, Json)>),
}

/// The value of the first entry named `key`.
pub open spec fn entry(es: Seq<(String, Json)>, key: Seq<char>) -> Option<Json>
    decreases es.len(),
{
    if es.len() == 0 {
        None
    } else if es[0].0@ == key {
        Some(es[0].1)
    } else {
        entry(es.drop_first(), key)
    }
}

/// An object's `usage` entry counts tokens: it is an object with an
/// `input_tokens` or an `output_tokens` entry.
pub open spec fn token_usage(es: Seq<(String, Json)>) -> Option<Seq<(String, Json)>> {
    match entry(es, "usage"@) {
        Some(Json::Object(u)) => if entry(u@, "input_tokens"@) is Some || entry(
            u@,
            "output_tokens"@,
        ) is Some {
            Some(u@)
        } else {
            None
        },
        _ => None,
    }
}

/// The first token-counting `usage` object in `v`: an object's own one
/// first, then depth-first through its values and array elements in
/// order.
pub open spec fn usage_in(v: Json) -> Option<Seq<(String, Json)>>
    decreases v, 0int,
{
    match v {
        Json::Object(m) => match token_usage(m@) {
            Some(u) => Some(u),
            None => usage_in_entries(m@),
        },
        Json::Array(a) => usage_in_items(a@),
        _ => None,
    }
}

/// The first token-counting `usage` object among the values of `es`.
pub open spec fn usage_in_entries(es: Seq<(String, Json)>) -> Option<Seq<(String, Json)>>
    decreases es, 1int,
{
    if es.len() == 0 {
        None
    } else {
        match usage_in(es[0].1) {
            Some(u) => Some(u),
            None => usage_in_entries(es.drop_first()),
        }
    }
}

/// The first token-counting `usage` object among `items`.
pub open spec fn usage_in_items(items: Seq<Json>) -> Option<Seq<(String, Json)>>
    decreases items, 1int,
{
    if items.len() == 0 {
        None
    } else {
        match usage_in(items[0]) {
            Some(u) => Some(u),
            None => usage_in_items(items.drop_first()),
        }
    }
}


/// The `u64` reading of an optional number.
pub open spec fn number_of(j: Option<Json>) -> Option<u64> {
    match j {
        Some(Json::Number { as_u64, .. }) => as_u64,
        _ => None,
    }
}

/// The text of an optional number.
pub open spec fn number_text(j: Option<Json>) -> Option<Seq<char>> {
    match j {
        Some(Json::Number { text, .. }) => Some(text@),
        _ => None,
    }
}

/// The first `model` string in `v`: an object's own one first, then
/// depth-first through its values and array elements in order.
pub open spec fn model_in(v: Json) -> Option<Seq<char>>
    decreases v, 0int,
{
    match v {
        Json::Object(m) => match entry(m@, "model"@) {
            Some(Json::Str(s)) => Some(s@),
            _ => model_in_entries(m@),
        },
        Json::Array(a) => model_in_items(a@),
        _ => None,
    }
}

/// The first `model` string among the values of `es`.
pub open spec fn model_in_entries(es: Seq<(String, Json)>) -> Option<Seq<char>>
    decreases es, 1int,
{
    if es.len() == 0 {
        None
    } else {
        match model_in(es[0].1) {
            Some(u) => Some(u),
            None => model_in_entries(es.drop_first()),
        }
    }
}

/// The first `model` string among `items`.
pub open spec fn model_in_items(items: Seq<Json>) -> Option<Seq<char>>
    decreases items, 1int,
{
    if items.len() == 0 {
        None
    } else {
        match model_in(items[0]) {
            Some(u) => Some(u),
            None => model_in_items(items.drop_first()),
        }
    }
}

fn entry_exec<'a>(es: &'a Vec<(String, Json)>, key: &str) -> (r: Option<&'a Json>)
    ensures
        match r {
            Some(j) => entry(es@, key@) == Some(*j),
            None => entry(es@, key@) is None,
        },
{
    let mut i: usize = 0;
    proof {
        assert(es@.skip(0) =~= es@);
    }
    while i < es.len()
        invariant
            i <= es@.len(),
            entry(es@, key@) == entry(es@.skip(i as int), key@),
        decreases es@.len() - i,
    {
        proof {
            assert(es@.skip(i as int).drop_first() =~= es@.skip(i + 1));
        }
        if crate::text::str_eq(es[i].0.as_str(), key) {
            return Some(&es[i].1);
        }
        i = i + 1;
    }
    None
}

fn token_usage_exec<'a>(es: &'a Vec<(String, Json)>) -> (r: Option<&'a Vec<(String, Json)>>)
    ensures
        match r {
            Some(u) => token_usage(es@) == Some(u@),
            None => token_usage(es@) is None,
        },
{
    match entry_exec(es, "usage") {
        Some(Json::Object(u)) => {
            if entry_exec(u, "input_tokens").is_some() || entry_exec(u, "output_tokens").is_some() {
                Some(u)
            } else {
                None
            }
        },
        _ => None,
    }
}

/// Finds the first token-counting `usage` object of an event.
fn find_usage<'a>(v: &'a Json) -> (r: Option<&'a Vec<(String, Json)>>)
    ensures
        match r {
            Some(u) => usage_in(*v) == Some(u@),
            None => usage_in(*v) is None,
        },
    decreases v, 0int,
{
    match v {
        Json::Object(m) => match token_usage_exec(m) {
            Some(u) => Some(u),
            None => find_usage_entries(m),
        },
        Json::Array(a) => find_usage_items(a),
        _ => None,
    }
}

fn find_usage_entries<'a>(es: &'a Vec<(String, Json)>) -> (r: Option<&'a Vec<(String, Json)>>)
    ensures
        match r {
            Some(u) => usage_in_entries(es@) == Some(u@),
            None => usage_in_entries(es@) is None,
        },
    decreases es@, 1int,
{
    let mut i: usize = 0;
    proof {
        assert(es@.skip(0) =~= es@);
    }
    while i < es.len()
        invariant
            i <= es@.len(),
            usage_in_entries(es@) == usage_in_entries(es@.skip(i as int)),
        decreases es@.len() - i,
    {
        proof {
            assert(es@.skip(i as int).drop_first() =~= es@.skip(i + 1));
            assert(es@.skip(i as int)[0] == es@[i as int]);
            assert(decreases_to!(es@ => es@[i as int]));
            assert(decreases_to!(es@[i as int] => es@[i as int].1));
        }
        match find_usage(&es[i].1) {
            Some(u) => {
                return Some(u);
            },
            None => {},
        }
        i = i + 1;
    }
    None
}

fn find_usage_items<'a>(items: &'a Vec<Json>) -> (r: Option<&'a Vec<(String, Json)>>)
    ensures
        match r {
            Some(u) => usage_in_items(items@) == Some(u@),
            None => usage_in_items(items@) is None,
        },
    decreases items@, 1int,
{
    let mut i: usize = 0;
    proof {
        assert(items@.skip(0) =~= items@);
    }
    while i < items.len()
        invariant
            i <= items@.len(),
            usage_in_items(items@) == usage_in_items(items@.skip(i as int)),
        decreases items@.len() - i,
    {
        proof {
            assert(items@.skip(i as int).drop_first() =~= items@.skip(i + 1));
            assert(items@.skip(i as int)[0] == items@[i as int]);
            assert(decreases_to!(items@ => items@[i as int]));
        }
        match find_usage(&items[i]) {
            Some(u) => {
                return Some(u);
            },
            None => {},
        }
        i = i + 1;
    }
    None
}


fn find_model<'a>(v: &'a Json) -> (r: Option<&'a String>)
    ensures
        match r {
            Some(m) => model_in(*v) == Some(m@),
            None => model_in(*v) is None,
        },
    decreases v, 0int,
{
    match v {
        Json::Object(m) => match entry_exec(m, "model") {
            Some(Json::Str(s)) => Some(s),
            _ => find_model_entries(m),
        },
        Json::Array(a) => find_model_items(a),
        _ => None,
    }
}

fn find_model_entries<'a>(es: &'a Vec<(String, Json)>) -> (r: Option<&'a String>)
    ensures
        match r {
            Some(m) => model_in_entries(es@) == Some(m@),
            None => model_in_entries(es@) is None,
        },
    decreases es@, 1int,
{
    let mut i: usize = 0;
    proof {
        assert(es@.skip(0) =~= es@);
    }
    while i < es.len()
        invariant
            i <= es@.len(),
            model_in_entries(es@) == model_in_entries(es@.skip(i as int)),
        decreases es@.len() - i,
    {
        proof {
            assert(es@.skip(i as int).drop_first() =~= es@.skip(i + 1));
            assert(es@.skip(i as int)[0] == es@[i as int]);
            assert(decreases_to!(es@ => es@[i as int]));
            assert(decreases_to!(es@[i as int] => es@[i as int].1));
        }
        match find_model(&es[i].1) {
            Some(m) => {
                return Some(m);
            },
            None => {},
        }
        i = i + 1;
    }
    None
}

fn find_model_items<'a>(items: &'a Vec<Json>) -> (r: Option<&'a String>)
    ensures
        match r {
            Some(m) => model_in_items(items@) == Some(m@),
            None => model_in_items(items@) is None,
        },
    decreases items@, 1int,
{
    let mut i: usize = 0;
    proof {
        assert(items@.skip(0) =~= items@);
    }
    while i < items.len()
        invariant
            i <= items@.len(),
            model_in_items(items@) == model_in_items(items@.skip(i as int)),
        decreases items@.len() - i,
    {
        proof {
            assert(items@.skip(i as int).drop_first() =~= items@.skip(i + 1));
            assert(items@.skip(i as int)[0] == items@[i as int]);
            assert(decreases_to!(items@ => items@[i as int]));
        }
        match find_model(&items[i]) {
            Some(m) => {
                return Some(m);
            },
            None => {},
        }
        i = i + 1;
    }
    None
}

/// The token usage seen so far in a runner's stream.
pub struct TokenUsage {
    pub input_tokens: Option<u64>,
    pub output_tokens: Option<u64>,
    pub model: Option<String>,
}

/// A counter after a new reading: the larger of the two.
pub open spec fn bump(slot: Option<u64>, candidate: Option<u64>) -> Option<u64> {
    match candidate {
        Some(v) => match slot {
            Some(p) => if v > p {
                Some(v)
            } else {
                Some(p)
            },
            None => Some(v),
        },
        None => slot,
    }
}

/// The model after a new reading: the first one seen that is not blank,
/// trimmed.
pub open spec fn bump_model(slot: Option<Seq<char>>, candidate: Option<Seq<char>>) -> Option<Seq<char>> {
    match slot {
        Some(m) => Some(m),
        None => match candidate {
            Some(c) => if trim(c).len() > 0 {
                Some(trim(c))
            } else {
                None
            },
            None => None,
        },
    }
}

/// A counter of the event's `usage` object, when it has one.
pub open spec fn usage_count(v: Json, key: Seq<char>) -> Option<u64> {
    match usage_in(v) {
        Some(u) => number_of(entry(u, key)),
        None => None,
    }
}

fn bump_exec(slot: &mut Option<u64>, candidate: Option<u64>)
    ensures
        *final(slot) == bump(*old(slot), candidate),
{
    match candidate {
        Some(v) => match *slot {
            Some(p) => if v > p {
                *slot = Some(v);
            },
            None => {
                *slot = Some(v);
            },
        },
        None => {},
    }
}

fn number_exec(j: Option<&Json>) -> (r: Option<u64>)
    ensures
        r == number_of(
            match j {
                Some(x) => Some(*x),
                None => None,
            },
        ),
{
    match j {
        Some(Json::Number { as_u64, .. }) => *as_u64,
        _ => None,
    }
}

/// Takes in one event of the stream: the token counters of its `usage`
/// object keep their highest readings, and the first model named sticks.
pub fn observe_event(obs: &mut TokenUsage, v: &Json)
    ensures
        final(obs).input_tokens == bump(old(obs).input_tokens, usage_count(*v, "input_tokens"@)),
        final(obs).output_tokens == bump(old(obs).output_tokens, usage_count(*v, "output_tokens"@)),
        opt_text(final(obs).model) == bump_model(opt_text(old(obs).model), model_in(*v)),
{
    match find_usage(v) {
        Some(u) => {
            let i = number_exec(entry_exec(u, "input_tokens"));
            let o = number_exec(entry_exec(u, "output_tokens"));
            bump_exec(&mut obs.input_tokens, i);
            bump_exec(&mut obs.output_tokens, o);
        },
        None => {},
    }
    if obs.model.is_none() {
        match find_model(v) {
            Some(m) => {
                let t = trimmed(m.as_str());
                if !t.as_str().is_empty() {
                    obs.model = Some(t);
                }
            },
            None => {},
        }
    }
}

/// The text of a stream line worth parsing: the line trimmed, when it
/// opens an object.
pub open spec fn event_text_of(line: Seq<char>) -> Option<Seq<char>> {
    let t = trim(line);
    if t.len() > 0 && t[0] == '{' {
        Some(t)
    } else {
        None
    }
}

/// The text of a stream line worth parsing as an event.
pub fn event_text(line: &str) -> (r: Option<String>)
    ensures
        opt_text(r) == event_text_of(line@),
{
    let t = trimmed(line);
    let v = crate::text::chars_of(t.as_str());
    if v.len() > 0 && v[0] == '{' {
        Some(t)
    } else {
        None
    }
}

/// The usage evidence of a run.
pub struct UsagePayload {
    pub input_tokens: u64,
    pub output_tokens: u64,
    /// The model seen in the stream, else the runner's own name.
    pub model: String,
}

/// The usage evidence, when both token counts were seen.
pub fn usage_payload(runner: &str, obs: &TokenUsage) -> (r: Option<UsagePayload>)
    ensures
        r is Some <==> obs.input_tokens is Some && obs.output_tokens is Some,
        r matches Some(p) ==> {
            &&& Some(p.input_tokens) == obs.input_tokens
            &&& Some(p.output_tokens) == obs.output_tokens
            &&& p.model@ == match obs.model {
                Some(m) => m@,
                None => runner@,
            }
        },
{
    let input_tokens = match obs.input_tokens {
        Some(n) => n,
        None => {
            return None;
        },
    };
    let output_tokens = match obs.output_tokens {
        Some(n) => n,
        None => {
            return None;
        },
    };
    let model = match &obs.model {
        Some(m) => owned(m.as_str()),
        None => owned(runner),
    };
    Some(UsagePayload { input_tokens, output_tokens, model })
}

/// Where the usage evidence of a task goes.
pub fn evidence_path(task_id: &str) -> (r: String)
    ensures
        r@ == "/v1/tasks/"@ + task_id@ + "/evidence"@,
{
    let mut r = owned("/v1/tasks/");
    push_str(&mut r, task_id);
    push_str(&mut r, "/evidence");
    r
}


/// Counters only grow: a reading never lowers or clears a counter that is
/// set, and a counter is at least every reading it took in. The first
/// model named stays.
pub proof fn usage_only_grows(slot: Option<u64>, candidate: Option<u64>, model: Seq<char>, named: Option<Seq<char>>)
    ensures
        slot matches Some(p) ==> bump(slot, candidate) matches Some(q) && q >= p,
        candidate matches Some(c) ==> bump(slot, candidate) matches Some(q) && q >= c,
        bump_model(Some(model), named) == Some(model),
{
}


// ---------------------------------------------------------------------
// Cost readings (the amounts are parsed by the caller)
// ---------------------------------------------------------------------

/// The keys that may hold a dollar cost, in the order they are tried.
pub open spec fn cost_keys() -> Seq<Seq<char>> {
    seq!["cost_usd"@, "cost"@, "total_cost"@, "usd_cost"@]
}

/// The first of `keys` whose entry in `es` is a number, as text.
pub open spec fn first_number(es: Seq<(String, Json)>, keys: Seq<Seq<char>>) -> Option<Seq<char>>
    decreases keys.len(),
{
    if keys.len() == 0 {
        None
    } else {
        match number_text(entry(es, keys[0])) {
            Some(t) => Some(t),
            None => first_number(es, keys.drop_first()),
        }
    }
}

/// The first cost in `v`: one of the cost keys of an object, then its
/// values and array elements depth-first.
pub open spec fn cost_in(v: Json) -> Option<Seq<char>>
    decreases v, 0int,
{
    match v {
        Json::Object(m) => match first_number(m@, cost_keys()) {
            Some(t) => Some(t),
            None => cost_in_entries(m@),
        },
        Json::Array(a) => cost_in_items(a@),
        _ => None,
    }
}

/// The first cost among the values of `es`.
pub open spec fn cost_in_entries(es: Seq<(String, Json)>) -> Option<Seq<char>>
    decreases es, 1int,
{
    if es.len() == 0 {
        None
    } else {
        match cost_in(es[0].1) {
            Some(u) => Some(u),
            None => cost_in_entries(es.drop_first()),
        }
    }
}

/// The first cost among `items`.
pub open spec fn cost_in_items(items: Seq<Json>) -> Option<Seq<char>>
    decreases items, 1int,
{
    if items.len() == 0 {
        None
    } else {
        match cost_in(items[0]) {
            Some(u) => Some(u),
            None => cost_in_items(items.drop_first()),
        }
    }
}

fn number_text_exec(j: Option<&Json>) -> (r: Option<String>)
    ensures
        opt_text(r) == number_text(
            match j {
                Some(x) => Some(*x),
                None => None,
            },
        ),
{
    match j {
        Some(Json::Number { text, .. }) => Some(owned(text.as_str())),
        _ => None,
    }
}

fn first_cost_key(es: &Vec<(String, Json)>) -> (r: Option<String>)
    ensures
        opt_text(r) == first_number(es@, cost_keys()),
{
    proof {
        reveal_with_fuel(first_number, 5);
    }
    match number_text_exec(entry_exec(es, "cost_usd")) {
        Some(t) => Some(t),
        None => match number_text_exec(entry_exec(es, "cost")) {
            Some(t) => Some(t),
            None => match number_text_exec(entry_exec(es, "total_cost")) {
                Some(t) => Some(t),
                None => number_text_exec(entry_exec(es, "usd_cost")),
            },
        },
    }
}

fn find_cost(v: &Json) -> (r: Option<String>)
    ensures
        opt_text(r) == cost_in(*v),
    decreases v, 0int,
{
    match v {
        Json::Object(m) => match first_cost_key(m) {
            Some(t) => Some(t),
            None => find_cost_entries(m),
        },
        Json::Array(a) => find_cost_items(a),
        _ => None,
    }
}

fn find_cost_entries(es: &Vec<(String, Json)>) -> (r: Option<String>)
    ensures
        opt_text(r) == cost_in_entries(es@),
    decreases es@, 1int,
{
    let mut i: usize = 0;
    proof {
        assert(es@.skip(0) =~= es@);
    }
    while i < es.len()
        invariant
            i <= es@.len(),
            cost_in_entries(es@) == cost_in_entries(es@.skip(i as int)),
        decreases es@.len() - i,
    {
        proof {
            assert(es@.skip(i as int).drop_first() =~= es@.skip(i + 1));
            assert(es@.skip(i as int)[0] == es@[i as int]);
            assert(decreases_to!(es@ => es@[i as int]));
            assert(decreases_to!(es@[i as int] => es@[i as int].1));
        }
        match find_cost(&es[i].1) {
            Some(t) => {
                return Some(t);
            },
            None => {},
        }
        i = i + 1;
    }
    None
}

fn find_cost_items(items: &Vec<Json>) -> (r: Option<String>)
    ensures
        opt_text(r) == cost_in_items(items@),
    decreases items@, 1int,
{
    let mut i: usize = 0;
    proof {
        assert(items@.skip(0) =~= items@);
    }
    while i < items.len()
        invariant
            i <= items@.len(),
            cost_in_items(items@) == cost_in_items(items@.skip(i as int)),
        decreases items@.len() - i,
    {
        proof {
            assert(items@.skip(i as int).drop_first() =~= items@.skip(i + 1));
            assert(items@.skip(i as int)[0] == items@[i as int]);
            assert(decreases_to!(items@ => items@[i as int]));
        }
        match find_cost(&items[i]) {
            Some(t) => {
                return Some(t);
            },
            None => {},
        }
        i = i + 1;
    }
    None
}

/// The cost an event reports, as number texts in the order they are
/// taken in: the `cost_usd` of its token-counting `usage` object, then the
/// first cost anywhere in it.
pub fn cost_readings(v: &Json) -> (r: (Option<String>, Option<String>))
    ensures
        opt_text(r.0) == match usage_in(*v) {
            Some(u) => number_text(entry(u, "cost_usd"@)),
            None => None,
        },
        opt_text(r.1) == cost_in(*v),
{
    let from_usage = match find_usage(v) {
        Some(u) => number_text_exec(entry_exec(u, "cost_usd")),
        None => None,
    };
    (from_usage, find_cost(v))
}

} // verus!
