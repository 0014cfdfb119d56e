//! `cvg llm call`: the request for the daemon's LLM gateway, where the
//! prompt comes from, and how the reply is shown.
use crate::text::{opt_text, owned, push_str, str_eq};
use vstd::prelude::*;

verus! {

// ---------------------------------------------------------------------
// The request
// ---------------------------------------------------------------------

/// What `cvg llm call` gathers before it calls the gateway.
pub struct CallInput {
    /// Operator-declared processing purpose.
    pub purpose: String,
    /// Allow-listed model identifier.
    pub model: String,
    /// The prompt, already read from its source.
    pub prompt: String,
    /// Requested maximum output tokens.
    pub max_tokens: Option<u32>,
    /// Hash of the retrieval set the prompt was built from.
    pub retrieval_set_hash: Option<String>,
    /// JSON Schema the reply must satisfy, as JSON text.
    pub expected_schema: Option<String>,
}

/// The body of `POST /v1/llm-gateway/call`: the three required fields,
/// and each optional one only when it was given (so that the daemon
/// applies its own defaults rather than seeing `null`).
pub struct CallBody {
    pub purpose: String,
    pub model_id: String,
    pub prompt: String,
    pub max_output_tokens: Option<u32>,
    pub retrieval_set_hash: Option<String>,
    /// The schema as JSON text, sent as a JSON value.
    pub expected_output_schema: Option<String>,
}

/// Builds the gateway request from the gathered input.
pub fn build_call_body(input: CallInput) -> (body: CallBody)
    ensures
        body.purpose@ == input.purpose@,
        body.model_id@ == input.model@,
        body.prompt@ == input.prompt@,
        body.max_output_tokens == input.max_tokens,
        opt_text(body.retrieval_set_hash) == opt_text(input.retrieval_set_hash),
        opt_text(body.expected_output_schema) == opt_text(input.expected_schema),
{
    CallBody {
        purpose: input.purpose,
        model_id: input.model,
        prompt: input.prompt,
        max_output_tokens: input.max_tokens,
        retrieval_set_hash: input.retrieval_set_hash,
        expected_output_schema: input.expected_schema,
    }
}

// ---------------------------------------------------------------------
// Where the prompt comes from
// ---------------------------------------------------------------------

/// The source the prompt is read from.
pub enum PromptSource {
    /// The file given with `--prompt-file`.
    File,
    /// Standard input (`--prompt -`).
    Stdin,
    /// The text of `--prompt`.
    Literal(String),
}

/// No prompt was given.
pub struct MissingPrompt;

impl MissingPrompt {
    /// What the operator is told.
    pub fn message(&self) -> (r: &'static str)
        ensures
            r@ == missing_prompt_text(),
    {
        "a prompt is required: pass --prompt <TEXT>, --prompt - (stdin), or --prompt-file <PATH>"
    }
}

/// The message of a missing prompt.
pub open spec fn missing_prompt_text() -> Seq<char> {
    "a prompt is required: pass --prompt <TEXT>, --prompt - (stdin), or --prompt-file <PATH>"@
}

/// The source of the prompt: a prompt file wins; then `-` means standard
/// input; then the literal text; with none of them there is no prompt.
pub fn prompt_source(prompt: Option<&str>, has_file: bool) -> (r: Result<PromptSource, MissingPrompt>)
    ensures
        has_file ==> r matches Ok(PromptSource::File),
        !has_file ==> match prompt {
            Some(p) => if p@ == "-"@ {
                r matches Ok(PromptSource::Stdin)
            } else {
                r matches Ok(PromptSource::Literal(t)) && t@ == p@
            },
            None => r is Err,
        },
{
    if has_file {
        return Ok(PromptSource::File);
    }
    match prompt {
        Some(p) => {
            if str_eq(p, "-") {
                Ok(PromptSource::Stdin)
            } else {
                Ok(PromptSource::Literal(owned(p)))
            }
        },
        None => Err(MissingPrompt),
    }
}

// ---------------------------------------------------------------------
// The reply
// ---------------------------------------------------------------------

/// What the output reads of a gateway reply.
pub struct LlmReply {
    /// The entries of `result` whose values are strings, in order.
    pub result_strings: Vec<(String, String)>,
    /// `result` as compact JSON.
    pub result_json: String,
    /// `meta.provider_id`, when it is a string.
    pub provider_id: Option<String>,
    /// `meta.cache_hit`, when it is a boolean.
    pub cache_hit: Option<bool>,
    /// `egress.injection_flagged`, when it is a boolean.
    pub injection_flagged: Option<bool>,
}

/// The string value of `key` among `entries`, if any (the first match).
pub open spec fn lookup(entries: Seq<(String, String)>, key: Seq<char>) -> Option<Seq<char>>
    decreases entries.len(),
{
    if entries.len() == 0 {
        None
    } else if entries[0].0@ == key {
        Some(entries[0].1@)
    } else {
        lookup(entries.drop_first(), key)
    }
}

/// The keys that may hold the model's text, in the order they are tried.
pub open spec fn text_keys() -> Seq<Seq<char>> {
    seq!["output_text"@, "text"@, "content"@, "completion"@]
}

/// The first of `keys` that names a string of `entries`.
pub open spec fn first_text(entries: Seq<(String, String)>, keys: Seq<Seq<char>>) -> Option<Seq<char>>
    decreases keys.len(),
{
    if keys.len() == 0 {
        None
    } else {
        match lookup(entries, keys[0]) {
            Some(t) => Some(t),
            None => first_text(entries, keys.drop_first()),
        }
    }
}

/// The model's output: the first text field of `result`, else `result`
/// as compact JSON.
pub open spec fn output_text_of(r: LlmReply) -> Seq<char> {
    match first_text(r.result_strings@, text_keys()) {
        Some(t) => t,
        None => r.result_json@,
    }
}

/// The model's text written out: the string under `output_text`, else
/// under `text`, else under `content`, else under `completion`, else the
/// whole result as JSON.
pub open spec fn model_text(rs: Seq<(String, String)>, json: Seq<char>) -> Seq<char> {
    if lookup(rs, "output_text"@) is Some {
        lookup(rs, "output_text"@)->0
    } else if lookup(rs, "text"@) is Some {
        lookup(rs, "text"@)->0
    } else if lookup(rs, "content"@) is Some {
        lookup(rs, "content"@)->0
    } else if lookup(rs, "completion"@) is Some {
        lookup(rs, "completion"@)->0
    } else {
        json
    }
}

/// A lookup gives the value of the first entry under the key, and nothing
/// when no entry has it.
pub proof fn lookup_takes_first_entry(entries: Seq<(String, String)>, key: Seq<char>)
    ensures
        lookup(entries, key) is None <==> forall|i: int| 0 <= i < entries.len() ==> (#[trigger] entries[i]).0@ != key,
        lookup(entries, key) matches Some(v) ==> exists|i: int|
            0 <= i < entries.len() && (#[trigger] entries[i]).0@ == key && entries[i].1@ == v && forall|j: int|
                0 <= j < i ==> (#[trigger] entries[j]).0@ != key,
    decreases entries.len(),
{
    if entries.len() > 0 {
        lookup_takes_first_entry(entries.drop_first(), key);
        if entries[0].0@ == key {
            assert(entries[0].0@ == key);
        } else {
            assert forall|i: int| 0 < i < entries.len() implies entries[i] == entries.drop_first()[i - 1] by {}
            if lookup(entries, key) is Some {
                let v = lookup(entries, key)->0;
                let k = choose|k: int|
                    0 <= k < entries.drop_first().len() && (#[trigger] entries.drop_first()[k]).0@ == key
                        && entries.drop_first()[k].1@ == v && forall|j: int|
                        0 <= j < k ==> (#[trigger] entries.drop_first()[j]).0@ != key;
                assert(entries[k + 1] == entries.drop_first()[k]);
                assert forall|j: int| 0 <= j < k + 1 implies (#[trigger] entries[j]).0@ != key by {
                    if j > 0 {
                        assert(entries[j] == entries.drop_first()[j - 1]);
                    }
                }
            } else {
                assert forall|i: int| 0 <= i < entries.len() implies (#[trigger] entries[i]).0@ != key by {
                    if i > 0 {
                        assert(entries[i] == entries.drop_first()[i - 1]);
                    }
                }
            }
        }
    }
}

/// The printed output is the model's text under the first of the four
/// known keys (`output_text`, `text`, `content`, `completion`) that holds
/// a string, and the raw JSON only when none does.
pub proof fn output_prefers_known_keys(r: LlmReply)
    ensures
        output_text_of(r) == model_text(r.result_strings@, r.result_json@),
{
    reveal_with_fuel(first_text, 5);
    let k = text_keys();
    assert(k.drop_first() =~= seq!["text"@, "content"@, "completion"@]);
    assert(k.drop_first().drop_first() =~= seq!["content"@, "completion"@]);
    assert(k.drop_first().drop_first().drop_first() =~= seq!["completion"@]);
    assert(k.drop_first().drop_first().drop_first().drop_first() =~= Seq::<Seq<char>>::empty());
}

fn find(entries: &Vec<(String, String)>, key: &str) -> (r: Option<String>)
    ensures
        opt_text(r) == lookup(entries@, key@),
{
    let mut i: usize = 0;
    proof {
        assert(entries@.skip(0) =~= entries@);
    }
    while i < entries.len()
        invariant
            i <= entries@.len(),
            lookup(entries@, key@) == lookup(entries@.skip(i as int), key@),
        decreases entries@.len() - i,
    {
        proof {
            assert(entries@.skip(i as int).drop_first() =~= entries@.skip(i + 1));
        }
        if str_eq(entries[i].0.as_str(), key) {
            return Some(owned(entries[i].1.as_str()));
        }
        i = i + 1;
    }
    None
}

/// The model's output text.
pub fn output_text(r: &LlmReply) -> (s: String)
    ensures
        s@ == output_text_of(*r),
        s@ == model_text(r.result_strings@, r.result_json@),
{
    proof {
        output_prefers_known_keys(*r);
    }
    let e = &r.result_strings;
    proof {
        reveal_with_fuel(first_text, 5);
    }
    match find(e, "output_text") {
        Some(t) => t,
        None => match find(e, "text") {
            Some(t) => t,
            None => match find(e, "content") {
                Some(t) => t,
                None => match find(e, "completion") {
                    Some(t) => t,
                    None => owned(r.result_json.as_str()),
                },
            },
        },
    }
}

/// The summary line under the output: provider (`?` when unknown),
/// whether the cache answered, and the injection flag when it is set.
pub open spec fn summary_text(r: LlmReply) -> Seq<char> {
    "— provider="@ + match r.provider_id {
        Some(p) => p@,
        None => "?"@,
    } + " cache_hit="@ + (if r.cache_hit == Some(true) {
        "true"@
    } else {
        "false"@
    }) + if r.injection_flagged == Some(true) {
        " injection_flagged=true"@
    } else {
        Seq::empty()
    }
}

/// The lines shown for a reply: the output text, and in the human view
/// the summary line.
pub open spec fn reply_text(r: LlmReply, human: bool) -> Seq<Seq<char>> {
    if human {
        seq![output_text_of(r), summary_text(r)]
    } else {
        seq![output_text_of(r)]
    }
}

/// The lines shown for a reply.
pub fn reply_lines(r: &LlmReply, human: bool) -> (lines: Vec<String>)
    ensures
        lines@.map_values(|s: String| s@) == reply_text(*r, human),
{
    let mut lines: Vec<String> = Vec::new();
    lines.push(output_text(r));
    if human {
        let mut s = owned("— provider=");
        match &r.provider_id {
            Some(p) => push_str(&mut s, p.as_str()),
            None => push_str(&mut s, "?"),
        }
        push_str(&mut s, " cache_hit=");
        let hit = match r.cache_hit {
            Some(b) => b,
            None => false,
        };
        push_str(&mut s, if hit { "true" } else { "false" });
        let flagged = match r.injection_flagged {
            Some(b) => b,
            None => false,
        };
        if flagged {
            push_str(&mut s, " injection_flagged=true");
        }
        proof {
            assert(s@ =~= summary_text(*r));
        }
        lines.push(s);
    }
    proof {
        assert(lines@.map_values(|s: String| s@) =~= reply_text(*r, human));
    }
    lines
}

} // verus!
