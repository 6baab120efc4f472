//! The language model side: which model a tag names, where to send a prompt,
//! the prompts themselves, and reading a streamed reply line by line.
use vstd::prelude::*;
use crate::alerts::{DailyStats, Entry};
use crate::config::{LlmConfig, OllamaModel, OpenRouterModel};
use crate::report::{dec, ReportShares};
use crate::text::{
    chars_of, decimal, first_chars, has_prefix, owned, push_decimal, push_signed, push_str, same,
    signed_decimal, starts_with, string_of, take_chars, trim, trim_bounds, without_prefix, views,
    opt_view,
};
use crate::wrap::{lemma_newline_at_bound, newline_at};
use crate::text::{contains, lemma_contains_left, lemma_contains_right, lemma_contains_self};
use crate::json::{bool_at, json_bool_at, json_str_at, steps, str_at, JsonStep};

verus! {

broadcast use vstd::string::group_string_axioms;

pub const OPENROUTER_PREFIX: &'static str = "openrouter:";

pub const LOCAL_PREFIX: &'static str = "local:";

/// The opening of the prompt that asks for an analysis of alerts.
pub const ANALYSIS_INTRO: &'static str = "You are a senior SOC analyst. \
     Your job is to explain what these logs show in plain, clear terms. \
     Be descriptive and analytical: explain what each event means, what process or \
     system behaviour caused it, and how the events relate to each other. \
     Stay realistic — only describe what the data actually shows. \
     Do not invent attack scenarios or jump to dramatic conclusions. \
     If the logs look like normal system activity, say so plainly.\n\n";

/// The close of the prompt that asks for an analysis of alerts.
pub const ANALYSIS_OUTRO: &'static str = "--- END OF ENTRIES ---\n\n\
     Write one short paragraph explaining what the logs show. \
     No headers, no bullet points, no markdown. Stay factual.\n";

/// The opening of the prompt that asks for a report's executive summary.
pub const REPORT_INTRO: &'static str = "You are a senior SOC analyst writing a daily security operations report.\n\
     Based on the statistics below, write a concise executive summary in markdown.\n\
     Cover:\n\
     1. Overall activity level and alert trend vs previous period.\n\
     2. Infrastructure health observations (agent coverage, noisy endpoints).\n\
     3. Top risk areas, notable rule patterns, and MITRE ATT&CK techniques detected.\n\
     4. Any recommended actions or watch items for the next shift.\n\
     Be factual and professional. Use 3–5 short paragraphs. Markdown bold/lists are fine.\n\n";

// ----------------------------------------------------------------------------
// Model tags
// ----------------------------------------------------------------------------

pub open spec fn openrouter_tags(ms: Seq<OpenRouterModel>) -> Seq<Seq<char>> {
    ms.map_values(|m: OpenRouterModel| OPENROUTER_PREFIX@ + m.tag@)
}

pub open spec fn local_tags(ms: Seq<OllamaModel>) -> Seq<Seq<char>> {
    ms.map_values(|m: OllamaModel| LOCAL_PREFIX@ + m.tag@)
}

/// All model tags: `openrouter:<tag>` for each hosted model, then `local:<tag>` for each local one.
pub open spec fn all_tags(c: LlmConfig) -> Seq<Seq<char>> {
    openrouter_tags(c.openrouter.models@) + local_tags(c.ollama.models@)
}

/// The first of `tags` that starts with `p`.
pub open spec fn first_with_prefix(tags: Seq<Seq<char>>, p: Seq<char>) -> Option<Seq<char>>
    decreases tags.len(),
{
    if tags.len() == 0 {
        None
    } else if starts_with(tags[0], p) {
        Some(tags[0])
    } else {
        first_with_prefix(tags.drop_first(), p)
    }
}

/// The model used first: the first hosted tag when the settings name `openrouter`,
/// else the first local tag; failing that the first tag, or `local:default`.
pub open spec fn default_provider_spec(provider: Seq<char>, tags: Seq<Seq<char>>) -> Seq<char> {
    let wanted = if provider == "openrouter"@ {
        first_with_prefix(tags, OPENROUTER_PREFIX@)
    } else {
        first_with_prefix(tags, LOCAL_PREFIX@)
    };
    match wanted {
        Some(t) => t,
        None => if tags.len() > 0 {
            tags[0]
        } else {
            "local:default"@
        },
    }
}

/// The model tags of the settings `c`.
pub fn llm_tags(c: &LlmConfig) -> (tags: Vec<String>)
    ensures
        views(tags@) == all_tags(*c),
{
    let mut tags: Vec<String> = Vec::new();
    let mut i: usize = 0;
    assert(views(tags@) =~= openrouter_tags(c.openrouter.models@.take(0)));
    while i < c.openrouter.models.len()
        invariant
            i <= c.openrouter.models@.len(),
            views(tags@) == openrouter_tags(c.openrouter.models@.take(i as int)),
        decreases c.openrouter.models@.len() - i,
    {
        let mut t = owned(OPENROUTER_PREFIX);
        push_str(&mut t, c.openrouter.models[i].tag.as_str());
        let ghost before = views(tags@);
        let ghost tv = t@;
        tags.push(t);
        proof {
            let ms = c.openrouter.models@;
            assert(views(tags@) =~= before.push(tv));
            assert(openrouter_tags(ms.take(i + 1)) =~= openrouter_tags(ms.take(i as int)).push(
                OPENROUTER_PREFIX@ + ms[i as int].tag@,
            ));
        }
        i = i + 1;
    }
    assert(c.openrouter.models@.take(i as int) =~= c.openrouter.models@);
    let mut j: usize = 0;
    assert(views(tags@) =~= openrouter_tags(c.openrouter.models@) + local_tags(
        c.ollama.models@.take(0),
    ));
    while j < c.ollama.models.len()
        invariant
            j <= c.ollama.models@.len(),
            views(tags@) == openrouter_tags(c.openrouter.models@) + local_tags(
                c.ollama.models@.take(j as int),
            ),
        decreases c.ollama.models@.len() - j,
    {
        let mut t = owned(LOCAL_PREFIX);
        push_str(&mut t, c.ollama.models[j].tag.as_str());
        let ghost before = views(tags@);
        let ghost tv = t@;
        tags.push(t);
        proof {
            let ms = c.ollama.models@;
            assert(views(tags@) =~= before.push(tv));
            assert(local_tags(ms.take(j + 1)) =~= local_tags(ms.take(j as int)).push(
                LOCAL_PREFIX@ + ms[j as int].tag@,
            ));
            assert(views(tags@) =~= openrouter_tags(c.openrouter.models@) + local_tags(
                ms.take(j + 1),
            ));
        }
        j = j + 1;
    }
    assert(c.ollama.models@.take(j as int) =~= c.ollama.models@);
    tags
}

fn find_with_prefix(tags: &Vec<String>, p: &str) -> (r: Option<usize>)
    ensures
        match r {
            Some(i) => i < tags@.len() && first_with_prefix(views(tags@), p@) == Some(
                tags@[i as int]@,
            ),
            None => first_with_prefix(views(tags@), p@) is None,
        },
{
    let mut j: usize = 0;
    assert(views(tags@).skip(0) =~= views(tags@));
    while j < tags.len()
        invariant
            j <= tags@.len(),
            first_with_prefix(views(tags@), p@) == first_with_prefix(views(tags@).skip(j as int), p@),
        decreases tags@.len() - j,
    {
        let ghost rest = views(tags@).skip(j as int);
        if has_prefix(tags[j].as_str(), p) {
            assert(rest[0] == tags@[j as int]@);
            return Some(j);
        }
        assert(rest.drop_first() =~= views(tags@).skip(j + 1));
        j = j + 1;
    }
    assert(views(tags@).skip(j as int) =~= Seq::<Seq<char>>::empty());
    None
}

/// The model used first, given the provider named in the settings and all model tags.
pub fn default_provider(provider: &str, tags: &Vec<String>) -> (p: String)
    ensures
        p@ == default_provider_spec(provider@, views(tags@)),
{
    assert(views(tags@).skip(0) =~= views(tags@));
    let wanted = if same(provider, "openrouter") {
        find_with_prefix(tags, OPENROUTER_PREFIX)
    } else {
        find_with_prefix(tags, LOCAL_PREFIX)
    };
    match wanted {
        Some(i) => tags[i].clone(),
        None => {
            if tags.len() > 0 {
                tags[0].clone()
            } else {
                owned("local:default")
            }
        },
    }
}

// ----------------------------------------------------------------------------
// Resolving a tag to a model
// ----------------------------------------------------------------------------

/// The id of the first hosted model with tag `tag`.
pub open spec fn openrouter_id(ms: Seq<OpenRouterModel>, tag: Seq<char>) -> Option<Seq<char>>
    decreases ms.len(),
{
    if ms.len() == 0 {
        None
    } else if ms[0].tag@ == tag {
        Some(ms[0].id@)
    } else {
        openrouter_id(ms.drop_first(), tag)
    }
}

/// The id of the first local model with tag `tag`.
pub open spec fn ollama_id(ms: Seq<OllamaModel>, tag: Seq<char>) -> Option<Seq<char>>
    decreases ms.len(),
{
    if ms.len() == 0 {
        None
    } else if ms[0].tag@ == tag {
        Some(ms[0].id@)
    } else {
        ollama_id(ms.drop_first(), tag)
    }
}

/// The hosted model that the selected tag names: for `openrouter:<tag>`, the first
/// hosted model with that tag.
pub open spec fn openrouter_model_spec(c: LlmConfig) -> Option<Seq<char>> {
    if starts_with(c.provider@, OPENROUTER_PREFIX@) {
        openrouter_id(c.openrouter.models@, c.provider@.skip(OPENROUTER_PREFIX@.len() as int))
    } else {
        None
    }
}

/// The local model that the selected tag names: for `local:<tag>`, the first local
/// model with that tag, or the tag itself when none has it.
pub open spec fn ollama_model_spec(c: LlmConfig) -> Option<Seq<char>> {
    if starts_with(c.provider@, LOCAL_PREFIX@) {
        let tag = c.provider@.skip(LOCAL_PREFIX@.len() as int);
        match ollama_id(c.ollama.models@, tag) {
            Some(id) => Some(id),
            None => Some(tag),
        }
    } else {
        None
    }
}

impl LlmConfig {
    /// The hosted model that the selected tag names, if any.
    pub fn resolve_openrouter_model(&self) -> (r: Option<String>)
        ensures
            opt_view(r) == openrouter_model_spec(*self),
    {
        let tag = match without_prefix(self.provider.as_str(), OPENROUTER_PREFIX) {
            Some(t) => t,
            None => {
                return None;
            },
        };
        let ms = &self.openrouter.models;
        let mut i: usize = 0;
        assert(ms@.skip(0) =~= ms@);
        while i < ms.len()
            invariant
                i <= ms@.len(),
                openrouter_id(ms@, tag@) == openrouter_id(ms@.skip(i as int), tag@),
                ms@ == self.openrouter.models@,
                starts_with(self.provider@, OPENROUTER_PREFIX@),
                tag@ == self.provider@.skip(OPENROUTER_PREFIX@.len() as int),
            decreases ms@.len() - i,
        {
            let ghost rest = ms@.skip(i as int);
            assert(rest.len() > 0);
            assert(rest[0] == ms@[i as int]);
            if same(ms[i].tag.as_str(), tag.as_str()) {
                let id = ms[i].id.clone();
                assert(opt_view(Some(id)) == Some(ms@[i as int].id@));
                return Some(id);
            }
            assert(rest.drop_first() =~= ms@.skip(i + 1));
            i = i + 1;
        }
        assert(ms@.skip(i as int) =~= Seq::<OpenRouterModel>::empty());
        None
    }

    /// The local model that the selected tag names, if any.
    pub fn resolve_ollama_model(&self) -> (r: Option<String>)
        ensures
            opt_view(r) == ollama_model_spec(*self),
    {
        let tag = match without_prefix(self.provider.as_str(), LOCAL_PREFIX) {
            Some(t) => t,
            None => {
                return None;
            },
        };
        let ms = &self.ollama.models;
        let mut i: usize = 0;
        assert(ms@.skip(0) =~= ms@);
        while i < ms.len()
            invariant
                i <= ms@.len(),
                ollama_id(ms@, tag@) == ollama_id(ms@.skip(i as int), tag@),
                ms@ == self.ollama.models@,
                starts_with(self.provider@, LOCAL_PREFIX@),
                tag@ == self.provider@.skip(LOCAL_PREFIX@.len() as int),
            decreases ms@.len() - i,
        {
            let ghost rest = ms@.skip(i as int);
            assert(rest.len() > 0);
            assert(rest[0] == ms@[i as int]);
            if same(ms[i].tag.as_str(), tag.as_str()) {
                let id = ms[i].id.clone();
                assert(opt_view(Some(id)) == Some(ms@[i as int].id@));
                return Some(id);
            }
            assert(rest.drop_first() =~= ms@.skip(i + 1));
            i = i + 1;
        }
        assert(ms@.skip(i as int) =~= Seq::<OllamaModel>::empty());
        Some(tag)
    }
}

// ----------------------------------------------------------------------------
// Where a prompt goes
// ----------------------------------------------------------------------------

/// How a reply is streamed back.
#[derive(Debug, Clone, Copy, PartialEq, Eq, Structural)]
pub enum StreamFormat {
    /// Server-sent events, each `data: <json>`, ending with `data: [DONE]`.
    Sse,
    /// One JSON object per line, the last one with `"done": true`.
    Ndjson,
}

/// Where and how to send a prompt.
#[derive(Debug, Clone)]
pub struct StreamPlan {
    pub format: StreamFormat,
    /// The endpoint to post the prompt to.
    pub url: String,
    pub model: String,
    /// The key of the hosted service; `None` when the settings leave it empty
    /// (the `OPENROUTER_API_KEY` environment variable is used then).
    pub api_key: Option<String>,
}

/// Why a prompt cannot be sent.
#[derive(Debug, Clone, PartialEq, Eq)]
pub enum LlmError {
    /// The selected tag names no model.
    UnknownModelTag(String),
    /// The selected tag names no provider.
    UnknownProvider(String),
}

impl LlmError {
    /// The message shown for this error.
    pub fn message(&self) -> (s: String)
        ensures
            s@ == match self {
                LlmError::UnknownModelTag(p) => "Unknown model tag: "@ + p@,
                LlmError::UnknownProvider(p) => "Unknown LLM provider: "@ + p@,
            },
    {
        match self {
            LlmError::UnknownModelTag(p) => {
                let mut s = owned("Unknown model tag: ");
                push_str(&mut s, p.as_str());
                s
            },
            LlmError::UnknownProvider(p) => {
                let mut s = owned("Unknown LLM provider: ");
                push_str(&mut s, p.as_str());
                s
            },
        }
    }
}

/// Where and how the settings `c` send a prompt: a hosted model for an
/// `openrouter:` tag, a local one for a `local:` tag.
pub open spec fn plan_matches(c: LlmConfig, r: Result<StreamPlan, LlmError>) -> bool {
    if starts_with(c.provider@, OPENROUTER_PREFIX@) {
        match openrouter_model_spec(c) {
            Some(id) => r matches Ok(p) && {
                &&& p.format == StreamFormat::Sse
                &&& p.url@ == c.openrouter.url@ + "/chat/completions"@
                &&& p.model@ == id
                &&& opt_view(p.api_key) == (if c.openrouter.api_key@.len() == 0 {
                    None
                } else {
                    Some(c.openrouter.api_key@)
                })
            },
            None => r matches Err(LlmError::UnknownModelTag(p)) && p@ == c.provider@,
        }
    } else if starts_with(c.provider@, LOCAL_PREFIX@) {
        match ollama_model_spec(c) {
            Some(id) => r matches Ok(p) && {
                &&& p.format == StreamFormat::Ndjson
                &&& p.url@ == c.ollama.url@ + "/api/chat"@
                &&& p.model@ == id
                &&& p.api_key is None
            },
            None => r matches Err(LlmError::UnknownModelTag(p)) && p@ == c.provider@,
        }
    } else {
        r matches Err(LlmError::UnknownProvider(p)) && p@ == c.provider@
    }
}

/// Where and how to send a prompt with the settings `c`.
pub fn stream_plan(c: &LlmConfig) -> (r: Result<StreamPlan, LlmError>)
    ensures
        plan_matches(*c, r),
{
    if has_prefix(c.provider.as_str(), OPENROUTER_PREFIX) {
        let model = match c.resolve_openrouter_model() {
            Some(m) => m,
            None => {
                return Err(LlmError::UnknownModelTag(c.provider.clone()));
            },
        };
        let api_key = if c.openrouter.api_key.as_str().is_empty() {
            None
        } else {
            Some(c.openrouter.api_key.clone())
        };
        let mut url = c.openrouter.url.clone();
        push_str(&mut url, "/chat/completions");
        Ok(StreamPlan { format: StreamFormat::Sse, url, model, api_key })
    } else if has_prefix(c.provider.as_str(), LOCAL_PREFIX) {
        let model = match c.resolve_ollama_model() {
            Some(m) => m,
            None => {
                return Err(LlmError::UnknownModelTag(c.provider.clone()));
            },
        };
        let mut url = c.ollama.url.clone();
        push_str(&mut url, "/api/chat");
        Ok(StreamPlan { format: StreamFormat::Ndjson, url, model, api_key: None })
    } else {
        Err(LlmError::UnknownProvider(c.provider.clone()))
    }
}

// ----------------------------------------------------------------------------
// Prompts
// ----------------------------------------------------------------------------

/// The items of `items` separated by `sep` (`[&str]::join`).
pub open spec fn join(items: Seq<Seq<char>>, sep: Seq<char>) -> Seq<char>
    decreases items.len(),
{
    if items.len() == 0 {
        Seq::empty()
    } else if items.len() == 1 {
        items[0]
    } else {
        join(items.drop_last(), sep) + sep + items.last()
    }
}

pub open spec fn block_head(e: Entry, i: int) -> Seq<char> {
    "["@ + decimal((i + 1) as nat) + "] "@ + e.timestamp@ + " | Level "@ + decimal(e.level as nat)
        + " | Agent: "@ + e.agent@ + "\n"@
}

pub open spec fn block_rule(e: Entry) -> Seq<char> {
    if e.rule_id@.len() == 0 {
        "    "@ + e.description@ + "\n"@
    } else {
        "    Rule "@ + e.rule_id@ + ": "@ + e.description@ + "\n"@
    }
}

pub open spec fn block_log(e: Entry) -> Seq<char> {
    match e.full_log {
        Some(l) => "    Log: "@ + take_chars(l@, 300) + "\n"@,
        None => Seq::empty(),
    }
}

pub open spec fn block_mitre(e: Entry) -> Seq<char> {
    if e.mitre_techniques@.len() > 0 {
        "    MITRE: "@ + join(views(e.mitre_techniques@), ", "@) + " ("@ + join(
            views(e.mitre_ids@),
            ", "@,
        ) + ")\n"@
    } else {
        Seq::empty()
    }
}

pub open spec fn block_note(e: Entry) -> Seq<char> {
    match e.ai_note {
        Some(n) => "    AI note ("@ + n.confidence_pct@ + "%): "@ + n.reasoning@ + "\n"@,
        None => Seq::empty(),
    }
}

/// How the analysis prompt describes the `i`-th (from 0) selected entry `e`: its
/// time, level and agent; its rule; an excerpt of its log; its MITRE techniques;
/// the upstream classifier's note; then an empty line.
pub open spec fn entry_block(e: Entry, i: int) -> Seq<char> {
    block_head(e, i) + block_rule(e) + block_log(e) + block_mitre(e) + block_note(e) + "\n"@
}

pub open spec fn entry_blocks(es: Seq<Entry>, n: nat) -> Seq<char>
    decreases n,
{
    if n == 0 {
        Seq::empty()
    } else {
        entry_blocks(es, (n - 1) as nat) + entry_block(es[n - 1], n - 1)
    }
}

/// The prompt that asks for an analysis of the entries `es`.
pub open spec fn analysis_prompt(es: Seq<Entry>) -> Seq<char> {
    ANALYSIS_INTRO@ + "Total entries selected: "@ + decimal(es.len()) + "\n\n--- LOG ENTRIES ---\n\n"@
        + entry_blocks(es, es.len()) + ANALYSIS_OUTRO@
}

fn push_joined(out: &mut String, items: &Vec<String>, sep: &str)
    ensures
        final(out)@ == old(out)@ + join(views(items@), sep@),
{
    let ghost start = out@;
    let mut i: usize = 0;
    while i < items.len()
        invariant
            i <= items@.len(),
            out@ == start + join(views(items@.take(i as int)), sep@),
        decreases items@.len() - i,
    {
        let ghost before = views(items@.take(i as int));
        if i > 0 {
            push_str(out, sep);
        }
        push_str(out, items[i].as_str());
        proof {
            let now = views(items@.take(i + 1));
            assert(now.drop_last() =~= before);
            assert(now.last() == items@[i as int]@);
            if i == 0 {
                assert(before =~= Seq::<Seq<char>>::empty());
                assert(now.len() == 1);
            }
        }
        i = i + 1;
        assert(out@ =~= start + join(views(items@.take(i as int)), sep@));
    }
    assert(items@.take(i as int) =~= items@);
}

fn push_block_head(out: &mut String, e: &Entry, i: usize)
    ensures
        final(out)@ == old(out)@ + block_head(*e, i as int),
{
    push_str(out, "[");
    push_decimal(out, i as u128 + 1);
    push_str(out, "] ");
    push_str(out, e.timestamp.as_str());
    push_str(out, " | Level ");
    push_decimal(out, e.level as u128);
    push_str(out, " | Agent: ");
    push_str(out, e.agent.as_str());
    push_str(out, "\n");
    assert(out@ =~= old(out)@ + block_head(*e, i as int));
}

fn push_block_rule(out: &mut String, e: &Entry)
    ensures
        final(out)@ == old(out)@ + block_rule(*e),
{
    if e.rule_id.as_str().is_empty() {
        push_str(out, "    ");
        push_str(out, e.description.as_str());
        push_str(out, "\n");
    } else {
        push_str(out, "    Rule ");
        push_str(out, e.rule_id.as_str());
        push_str(out, ": ");
        push_str(out, e.description.as_str());
        push_str(out, "\n");
    }
    assert(out@ =~= old(out)@ + block_rule(*e));
}

fn push_block_log(out: &mut String, e: &Entry)
    ensures
        final(out)@ == old(out)@ + block_log(*e),
{
    match &e.full_log {
        Some(log) => {
            push_str(out, "    Log: ");
            let excerpt = first_chars(log.as_str(), 300);
            push_str(out, excerpt.as_str());
            push_str(out, "\n");
        },
        None => {},
    }
    assert(out@ =~= old(out)@ + block_log(*e));
}

fn push_block_mitre(out: &mut String, e: &Entry)
    ensures
        final(out)@ == old(out)@ + block_mitre(*e),
{
    if e.mitre_techniques.len() > 0 {
        push_str(out, "    MITRE: ");
        push_joined(out, &e.mitre_techniques, ", ");
        push_str(out, " (");
        push_joined(out, &e.mitre_ids, ", ");
        push_str(out, ")\n");
    }
    assert(out@ =~= old(out)@ + block_mitre(*e));
}

fn push_block_note(out: &mut String, e: &Entry)
    ensures
        final(out)@ == old(out)@ + block_note(*e),
{
    match &e.ai_note {
        Some(n) => {
            push_str(out, "    AI note (");
            push_str(out, n.confidence_pct.as_str());
            push_str(out, "%): ");
            push_str(out, n.reasoning.as_str());
            push_str(out, "\n");
        },
        None => {},
    }
    assert(out@ =~= old(out)@ + block_note(*e));
}

fn push_entry_block(out: &mut String, e: &Entry, i: usize)
    ensures
        final(out)@ == old(out)@ + entry_block(*e, i as int),
{
    push_block_head(out, e, i);
    push_block_rule(out, e);
    push_block_log(out, e);
    push_block_mitre(out, e);
    push_block_note(out, e);
    push_str(out, "\n");
    assert(out@ =~= old(out)@ + entry_block(*e, i as int));
}

/// The prompt that asks for an analysis of the selected entries `es`.
pub fn build_analysis_prompt(es: &Vec<Entry>) -> (p: String)
    ensures
        p@ == analysis_prompt(es@),
{
    let mut out = owned(ANALYSIS_INTRO);
    push_str(&mut out, "Total entries selected: ");
    push_decimal(&mut out, es.len() as u128);
    push_str(&mut out, "\n\n--- LOG ENTRIES ---\n\n");
    let ghost start = out@;
    let mut i: usize = 0;
    while i < es.len()
        invariant
            i <= es@.len(),
            out@ == start + entry_blocks(es@, i as nat),
        decreases es@.len() - i,
    {
        push_entry_block(&mut out, &es[i], i);
        i = i + 1;
    }
    push_str(&mut out, ANALYSIS_OUTRO);
    assert(out@ =~= analysis_prompt(es@));
    out
}

/// How the report prompt words the change of the total against the previous window.
pub open spec fn prompt_trend(s: DailyStats, pct: i64) -> Seq<char> {
    if s.prev_period_total == 0 {
        "no previous period data"@
    } else {
        let delta = (s.total as i64) as int - (s.prev_period_total as i64) as int;
        if delta > 0 {
            "UP "@ + signed_decimal(pct as int) + "% vs previous "@ + decimal(s.hours as nat)
                + "-hour window ("@ + dec(s.prev_period_total) + " alerts)"@
        } else if delta < 0 {
            "DOWN "@ + signed_decimal(pct as int) + "% vs previous "@ + decimal(s.hours as nat)
                + "-hour window ("@ + dec(s.prev_period_total) + " alerts)"@
        } else {
            "UNCHANGED vs previous "@ + decimal(s.hours as nat) + "-hour window"@
        }
    }
}

pub open spec fn figures_totals(s: DailyStats, sh: ReportShares) -> Seq<char> {
    "**Period:** Last "@ + decimal(s.hours as nat) + " hours\n"@ + "**Index:** "@ + s.index@ + "\n"@
        + "**Total Alerts:** "@ + dec(s.total) + " ("@ + prompt_trend(s, sh.trend_pct) + ")\n\n"@
}

pub open spec fn figures_severity(s: DailyStats, sh: ReportShares) -> Seq<char> {
    "**Severity Breakdown:**\n"@ + "- Critical (≥12): "@ + dec(s.critical) + "\n"@ + "- High (8–11): "@
        + dec(s.high) + "\n"@ + "- Medium (4–7): "@ + dec(s.medium) + "\n"@ + "- Low (1–3): "@ + dec(
        s.low,
    ) + "\n"@ + "- Critical+High ratio: "@ + (if s.total > 0 {
        sh.critical_high@
    } else {
        "N/A"@
    }) + "\n\n"@
}

pub open spec fn figures_infra(s: DailyStats) -> Seq<char> {
    "**Infrastructure:** "@ + dec(s.unique_agents) + " unique agents reported alerts this period.\n\n"@
}

/// The figures the report prompt gives: period, index, totals and trend, severities, agents.
pub open spec fn prompt_figures(s: DailyStats, sh: ReportShares) -> Seq<char> {
    figures_totals(s, sh) + figures_severity(s, sh) + figures_infra(s)
}

pub open spec fn agent_lines(s: DailyStats, n: nat) -> Seq<char>
    decreases n,
{
    if n == 0 {
        Seq::empty()
    } else {
        agent_lines(s, (n - 1) as nat) + "- "@ + s.top_agents@[n - 1].0@ + ": "@ + dec(
            s.top_agents@[n - 1].1,
        ) + " alerts\n"@
    }
}

pub open spec fn rule_lines(s: DailyStats, n: nat) -> Seq<char>
    decreases n,
{
    if n == 0 {
        Seq::empty()
    } else {
        rule_lines(s, (n - 1) as nat) + "- Rule "@ + s.top_rules@[n - 1].0@ + " ("@ + dec(
            s.top_rules@[n - 1].2,
        ) + "x): "@ + s.top_rules@[n - 1].1@ + "\n"@
    }
}

pub open spec fn mitre_lines(s: DailyStats, n: nat) -> Seq<char>
    decreases n,
{
    if n == 0 {
        Seq::empty()
    } else {
        mitre_lines(s, (n - 1) as nat) + "- "@ + s.top_mitre@[n - 1].0@ + ": "@ + dec(
            s.top_mitre@[n - 1].1,
        ) + " events\n"@
    }
}

pub open spec fn event_lines(es: Seq<Entry>, n: nat) -> Seq<char>
    decreases n,
{
    if n == 0 {
        Seq::empty()
    } else {
        let e = es[n - 1];
        event_lines(es, (n - 1) as nat) + "- ["@ + e.timestamp@ + "  Lvl"@ + decimal(e.level as nat)
            + "] "@ + e.agent@ + ": "@ + e.description@ + "\n"@
    }
}

pub open spec fn min_nat(a: nat, b: nat) -> nat {
    if a < b {
        a
    } else {
        b
    }
}

pub open spec fn list_agents(s: DailyStats) -> Seq<char> {
    if s.top_agents@.len() > 0 {
        "**Top Agents by Alert Volume:**\n"@ + agent_lines(s, s.top_agents@.len()) + "\n"@
    } else {
        Seq::empty()
    }
}

pub open spec fn list_rules(s: DailyStats) -> Seq<char> {
    if s.top_rules@.len() > 0 {
        "**Top Triggered Rules:**\n"@ + rule_lines(s, s.top_rules@.len()) + "\n"@
    } else {
        Seq::empty()
    }
}

pub open spec fn list_mitre(s: DailyStats) -> Seq<char> {
    if s.top_mitre@.len() > 0 {
        "**Top MITRE ATT&CK Techniques:**\n"@ + mitre_lines(s, s.top_mitre@.len()) + "\n"@
    } else {
        Seq::empty()
    }
}

pub open spec fn list_events(s: DailyStats) -> Seq<char> {
    if s.top_entries@.len() > 0 {
        "**Sample High/Critical Events:**\n"@ + event_lines(
            s.top_entries@,
            min_nat(s.top_entries@.len(), 10),
        ) + "\n"@
    } else {
        Seq::empty()
    }
}

/// The lists the report prompt gives: top agents, rules, techniques, and up to ten events.
pub open spec fn prompt_lists(s: DailyStats) -> Seq<char> {
    list_agents(s) + list_rules(s) + list_mitre(s) + list_events(s)
}

/// The prompt that asks for the executive summary of the report on `s`.
pub open spec fn report_prompt(s: DailyStats, sh: ReportShares) -> Seq<char> {
    REPORT_INTRO@ + prompt_figures(s, sh) + prompt_lists(s) + "\nWrite the executive summary now:"@
}

fn push_prompt_trend(p: &mut String, s: &DailyStats, pct: i64)
    requires
        crate::report::trend_in_range(*s),
    ensures
        final(p)@ == old(p)@ + prompt_trend(*s, pct),
{
    if s.prev_period_total == 0 {
        push_str(p, "no previous period data");
    } else {
        let delta: i64 = (s.total as i64) - (s.prev_period_total as i64);
        if delta > 0 {
            push_str(p, "UP ");
            push_signed(p, pct as i128);
            push_str(p, "% vs previous ");
            push_decimal(p, s.hours as u128);
            push_str(p, "-hour window (");
            push_decimal(p, s.prev_period_total as u128);
            push_str(p, " alerts)");
        } else if delta < 0 {
            push_str(p, "DOWN ");
            push_signed(p, pct as i128);
            push_str(p, "% vs previous ");
            push_decimal(p, s.hours as u128);
            push_str(p, "-hour window (");
            push_decimal(p, s.prev_period_total as u128);
            push_str(p, " alerts)");
        } else {
            push_str(p, "UNCHANGED vs previous ");
            push_decimal(p, s.hours as u128);
            push_str(p, "-hour window");
        }
    }
    assert(p@ =~= old(p)@ + prompt_trend(*s, pct));
}

fn push_figures_totals(p: &mut String, s: &DailyStats, sh: &ReportShares)
    requires
        crate::report::trend_in_range(*s),
    ensures
        final(p)@ == old(p)@ + figures_totals(*s, *sh),
{
    push_str(p, "**Period:** Last ");
    push_decimal(p, s.hours as u128);
    push_str(p, " hours\n");
    push_str(p, "**Index:** ");
    push_str(p, s.index.as_str());
    push_str(p, "\n");
    push_str(p, "**Total Alerts:** ");
    push_decimal(p, s.total as u128);
    push_str(p, " (");
    push_prompt_trend(p, s, sh.trend_pct);
    push_str(p, ")\n\n");
    assert(p@ =~= old(p)@ + figures_totals(*s, *sh));
}

fn push_figures_severity(p: &mut String, s: &DailyStats, sh: &ReportShares)
    ensures
        final(p)@ == old(p)@ + figures_severity(*s, *sh),
{
    push_str(p, "**Severity Breakdown:**\n");
    push_str(p, "- Critical (≥12): ");
    push_decimal(p, s.critical as u128);
    push_str(p, "\n");
    push_str(p, "- High (8–11): ");
    push_decimal(p, s.high as u128);
    push_str(p, "\n");
    push_str(p, "- Medium (4–7): ");
    push_decimal(p, s.medium as u128);
    push_str(p, "\n");
    push_str(p, "- Low (1–3): ");
    push_decimal(p, s.low as u128);
    push_str(p, "\n");
    push_str(p, "- Critical+High ratio: ");
    if s.total > 0 {
        push_str(p, sh.critical_high.as_str());
    } else {
        push_str(p, "N/A");
    }
    push_str(p, "\n\n");
    assert(p@ =~= old(p)@ + figures_severity(*s, *sh));
}

fn push_prompt_figures(p: &mut String, s: &DailyStats, sh: &ReportShares)
    requires
        crate::report::trend_in_range(*s),
    ensures
        final(p)@ == old(p)@ + prompt_figures(*s, *sh),
{
    push_figures_totals(p, s, sh);
    push_figures_severity(p, s, sh);
    push_str(p, "**Infrastructure:** ");
    push_decimal(p, s.unique_agents as u128);
    push_str(p, " unique agents reported alerts this period.\n\n");
    assert(p@ =~= old(p)@ + prompt_figures(*s, *sh));
}

fn push_list_agents(p: &mut String, s: &DailyStats)
    ensures
        final(p)@ == old(p)@ + list_agents(*s),
{
    if s.top_agents.len() > 0 {
        push_str(p, "**Top Agents by Alert Volume:**\n");
        let ghost start = p@;
        let mut i: usize = 0;
        while i < s.top_agents.len()
            invariant
                i <= s.top_agents@.len(),
                p@ == start + agent_lines(*s, i as nat),
            decreases s.top_agents@.len() - i,
        {
            let (name, count) = &s.top_agents[i];
            push_str(p, "- ");
            push_str(p, name.as_str());
            push_str(p, ": ");
            push_decimal(p, *count as u128);
            push_str(p, " alerts\n");
            assert(p@ =~= start + agent_lines(*s, (i + 1) as nat));
            i = i + 1;
        }
        push_str(p, "\n");
    }
    assert(p@ =~= old(p)@ + list_agents(*s));
}

fn push_list_rules(p: &mut String, s: &DailyStats)
    ensures
        final(p)@ == old(p)@ + list_rules(*s),
{
    if s.top_rules.len() > 0 {
        push_str(p, "**Top Triggered Rules:**\n");
        let ghost start = p@;
        let mut i: usize = 0;
        while i < s.top_rules.len()
            invariant
                i <= s.top_rules@.len(),
                p@ == start + rule_lines(*s, i as nat),
            decreases s.top_rules@.len() - i,
        {
            let (id, desc, count) = &s.top_rules[i];
            push_str(p, "- Rule ");
            push_str(p, id.as_str());
            push_str(p, " (");
            push_decimal(p, *count as u128);
            push_str(p, "x): ");
            push_str(p, desc.as_str());
            push_str(p, "\n");
            assert(p@ =~= start + rule_lines(*s, (i + 1) as nat));
            i = i + 1;
        }
        push_str(p, "\n");
    }
    assert(p@ =~= old(p)@ + list_rules(*s));
}

fn push_list_mitre(p: &mut String, s: &DailyStats)
    ensures
        final(p)@ == old(p)@ + list_mitre(*s),
{
    if s.top_mitre.len() > 0 {
        push_str(p, "**Top MITRE ATT&CK Techniques:**\n");
        let ghost start = p@;
        let mut i: usize = 0;
        while i < s.top_mitre.len()
            invariant
                i <= s.top_mitre@.len(),
                p@ == start + mitre_lines(*s, i as nat),
            decreases s.top_mitre@.len() - i,
        {
            let (technique, count) = &s.top_mitre[i];
            push_str(p, "- ");
            push_str(p, technique.as_str());
            push_str(p, ": ");
            push_decimal(p, *count as u128);
            push_str(p, " events\n");
            assert(p@ =~= start + mitre_lines(*s, (i + 1) as nat));
            i = i + 1;
        }
        push_str(p, "\n");
    }
    assert(p@ =~= old(p)@ + list_mitre(*s));
}

fn push_list_events(p: &mut String, s: &DailyStats)
    ensures
        final(p)@ == old(p)@ + list_events(*s),
{
    if s.top_entries.len() > 0 {
        push_str(p, "**Sample High/Critical Events:**\n");
        let ghost start = p@;
        let n = if s.top_entries.len() < 10 {
            s.top_entries.len()
        } else {
            10
        };
        let mut i: usize = 0;
        while i < n
            invariant
                i <= n <= s.top_entries@.len(),
                p@ == start + event_lines(s.top_entries@, i as nat),
            decreases n - i,
        {
            let e = &s.top_entries[i];
            push_str(p, "- [");
            push_str(p, e.timestamp.as_str());
            push_str(p, "  Lvl");
            push_decimal(p, e.level as u128);
            push_str(p, "] ");
            push_str(p, e.agent.as_str());
            push_str(p, ": ");
            push_str(p, e.description.as_str());
            push_str(p, "\n");
            assert(p@ =~= start + event_lines(s.top_entries@, (i + 1) as nat));
            i = i + 1;
        }
        push_str(p, "\n");
    }
    assert(p@ =~= old(p)@ + list_events(*s));
}

fn push_prompt_lists(p: &mut String, s: &DailyStats)
    ensures
        final(p)@ == old(p)@ + prompt_lists(*s),
{
    push_list_agents(p, s);
    push_list_rules(p, s);
    push_list_mitre(p, s);
    push_list_events(p, s);
    assert(p@ =~= old(p)@ + prompt_lists(*s));
}

/// The prompt that asks for the executive summary of the report on `s`, with the
/// formatted ratio and trend of `sh`.
pub fn build_report_prompt(s: &DailyStats, sh: &ReportShares) -> (p: String)
    requires
        crate::report::trend_in_range(*s),
    ensures
        p@ == report_prompt(*s, *sh),
{
    let mut p = owned(REPORT_INTRO);
    push_prompt_figures(&mut p, s, sh);
    push_prompt_lists(&mut p, s);
    push_str(&mut p, "\nWrite the executive summary now:");
    p
}

/// The first text a report shows while its summary streams in.
pub open spec fn report_header(hours: u32, index: Seq<char>, total: usize) -> Seq<char> {
    "# SOC Daily Activity Report\n**Period:** Last "@ + decimal(hours as nat) + "h  |  **Index:** "@
        + index + "  |  **Total Alerts:** "@ + dec(total) + "\n\n## Executive Summary\n\n"@
}

/// The first text a report shows while its summary streams in.
pub fn report_stream_header(hours: u32, index: &str, total: usize) -> (h: String)
    ensures
        h@ == report_header(hours, index@, total),
{
    let mut h = owned("# SOC Daily Activity Report\n**Period:** Last ");
    push_decimal(&mut h, hours as u128);
    push_str(&mut h, "h  |  **Index:** ");
    push_str(&mut h, index);
    push_str(&mut h, "  |  **Total Alerts:** ");
    push_decimal(&mut h, total as u128);
    push_str(&mut h, "\n\n## Executive Summary\n\n");
    assert(h@ =~= report_header(hours, index@, total));
    h
}

// ----------------------------------------------------------------------------
// Reading a streamed reply
// ----------------------------------------------------------------------------

/// Text received but not yet split into lines.
pub struct LineBuffer {
    buf: Vec<char>,
}

impl View for LineBuffer {
    type V = Seq<char>;

    closed spec fn view(&self) -> Seq<char> {
        self.buf@
    }
}

impl LineBuffer {
    /// An empty buffer.
    pub fn new() -> (b: LineBuffer)
        ensures
            b@ == Seq::<char>::empty(),
    {
        LineBuffer { buf: Vec::new() }
    }

    /// Appends received text.
    pub fn push_text(&mut self, text: &str)
        ensures
            final(self)@ == old(self)@ + text@,
    {
        let v = chars_of(text);
        let mut i: usize = 0;
        while i < v.len()
            invariant
                i <= v@.len(),
                v@ == text@,
                self.buf@ == old(self)@ + v@.take(i as int),
            decreases v@.len() - i,
        {
            self.buf.push(v[i]);
            i = i + 1;
            assert(self.buf@ =~= old(self)@ + v@.take(i as int));
        }
        assert(v@.take(i as int) =~= v@);
    }

    /// Takes out the first complete line, trimmed, with its `'\n'`; `None`, with
    /// nothing taken, while no `'\n'` has arrived.
    pub fn next_line(&mut self) -> (r: Option<String>)
        ensures
            ({
                let p = newline_at(old(self)@);
                match r {
                    Some(line) => {
                        &&& p < old(self)@.len()
                        &&& line@ == trim(old(self)@.take(p as int))
                        &&& final(self)@ == old(self)@.skip(p as int + 1)
                    },
                    None => p == old(self)@.len() && final(self)@ == old(self)@,
                }
            }),
    {
        proof {
            lemma_newline_at_bound(self.buf@);
        }
        let mut j: usize = 0;
        while j < self.buf.len() && self.buf[j] != '\n'
            invariant
                j <= self.buf@.len(),
                forall|k: int| 0 <= k < j ==> #[trigger] self.buf@[k] != '\n',
            decreases self.buf@.len() - j,
        {
            j = j + 1;
        }
        proof {
            crate::wrap::lemma_newline_at(self.buf@, j as int);
        }
        if j == self.buf.len() {
            return None;
        }
        let line = self.take_line(j);
        Some(line)
    }

    fn take_line(&mut self, j: usize) -> (line: String)
        requires
            j < old(self).buf@.len(),
        ensures
            line@ == trim(old(self).buf@.take(j as int)),
            final(self).buf@ == old(self).buf@.skip(j + 1),
    {
        let mut head: Vec<char> = Vec::new();
        let mut k: usize = 0;
        while k < j
            invariant
                k <= j < self.buf@.len(),
                head@ == self.buf@.take(k as int),
            decreases j - k,
        {
            head.push(self.buf[k]);
            k = k + 1;
            assert(head@ =~= self.buf@.take(k as int));
        }
        let (a, b) = trim_bounds(&head);
        let line = string_of(&head, a, b);
        let mut rest: Vec<char> = Vec::new();
        let n = self.buf.len();
        let mut m: usize = j + 1;
        while m < self.buf.len()
            invariant
                j + 1 <= m <= self.buf@.len(),
                rest@ == self.buf@.subrange(j + 1, m as int),
            decreases self.buf@.len() - m,
        {
            rest.push(self.buf[m]);
            m = m + 1;
            assert(rest@ =~= self.buf@.subrange(j + 1, m as int));
        }
        self.buf = rest;
        line
    }
}

/// What one line of a server-sent event stream says.
#[derive(Debug, Clone)]
pub enum SseLine {
    /// `data: [DONE]`: the reply is complete.
    Done,
    /// `data: <payload>`.
    Data(String),
    /// Anything else.
    Skip,
}

/// Reads one (trimmed) line of a server-sent event stream.
pub fn sse_line(line: &str) -> (r: SseLine)
    ensures
        starts_with(line@, "data: "@) ==> {
            let payload = line@.skip(6);
            if payload == "[DONE]"@ {
                r is Done
            } else {
                r matches SseLine::Data(d) && d@ == payload
            }
        },
        !starts_with(line@, "data: "@) ==> r is Skip,
{
    proof {
        reveal_strlit("data: ");
    }
    match without_prefix(line, "data: ") {
        Some(data) => {
            if same(data.as_str(), "[DONE]") {
                SseLine::Done
            } else {
                SseLine::Data(data)
            }
        },
        None => SseLine::Skip,
    }
}

/// What one line of a streamed reply gives: text to pass on, and whether the reply
/// is complete.
#[derive(Debug, Clone)]
pub struct ReplyStep {
    pub text: Option<String>,
    pub done: bool,
}

/// Where a hosted model's event puts the next piece of text: `choices[0].delta.content`.
pub open spec fn delta_path() -> Seq<(int, Seq<char>)> {
    seq![(-1, "choices"@), (0, Seq::empty()), (-1, "delta"@), (-1, "content"@)]
}

/// Where a local model's line puts the next piece of text: `message.content`.
pub open spec fn message_path() -> Seq<(int, Seq<char>)> {
    seq![(-1, "message"@), (-1, "content"@)]
}

/// Where a local model's line says that the reply is complete: `done`.
pub open spec fn done_path() -> Seq<(int, Seq<char>)> {
    seq![(-1, "done"@)]
}

fn delta_steps() -> (p: Vec<JsonStep>)
    ensures
        steps(p@) == delta_path(),
{
    let mut p: Vec<JsonStep> = Vec::new();
    p.push(JsonStep::Member(owned("choices")));
    p.push(JsonStep::Position(0));
    p.push(JsonStep::Member(owned("delta")));
    p.push(JsonStep::Member(owned("content")));
    assert(steps(p@) =~= delta_path());
    p
}

fn message_steps() -> (p: Vec<JsonStep>)
    ensures
        steps(p@) == message_path(),
{
    let mut p: Vec<JsonStep> = Vec::new();
    p.push(JsonStep::Member(owned("message")));
    p.push(JsonStep::Member(owned("content")));
    assert(steps(p@) =~= message_path());
    p
}

fn done_steps() -> (p: Vec<JsonStep>)
    ensures
        steps(p@) == done_path(),
{
    let mut p: Vec<JsonStep> = Vec::new();
    p.push(JsonStep::Member(owned("done")));
    assert(steps(p@) =~= done_path());
    p
}

/// Reads one (trimmed) line of a hosted model's event stream: `data: [DONE]` ends
/// the reply; another `data: ` line passes on the text of its JSON event, if it has
/// one; any other line gives nothing.
pub fn sse_step(line: &str) -> (s: ReplyStep)
    ensures
        starts_with(line@, "data: "@) && line@.skip(6) == "[DONE]"@ ==> s.text is None && s.done,
        starts_with(line@, "data: "@) && line@.skip(6) != "[DONE]"@ ==> opt_view(s.text)
            == json_str_at(line@.skip(6), delta_path()) && !s.done,
        !starts_with(line@, "data: "@) ==> s.text is None && !s.done,
{
    match sse_line(line) {
        SseLine::Done => ReplyStep { text: None, done: true },
        SseLine::Data(d) => ReplyStep { text: str_at(d.as_str(), &delta_steps()), done: false },
        SseLine::Skip => ReplyStep { text: None, done: false },
    }
}

/// Reads one (trimmed) line of a local model's reply: an empty line gives nothing;
/// another passes on the text of its JSON object, if it has one, and ends the reply
/// when the object says `"done": true`.
pub fn ndjson_step(line: &str) -> (s: ReplyStep)
    ensures
        line@.len() == 0 ==> s.text is None && !s.done,
        line@.len() > 0 ==> opt_view(s.text) == json_str_at(line@, message_path()) && s.done == (
        json_bool_at(line@, done_path()) == Some(true)),
{
    if line.is_empty() {
        return ReplyStep { text: None, done: false };
    }
    let text = str_at(line, &message_steps());
    let done = match bool_at(line, &done_steps()) {
        Some(b) => b,
        None => false,
    };
    ReplyStep { text, done }
}

// ----------------------------------------------------------------------------
// Laws of the prompts
// ----------------------------------------------------------------------------

proof fn lemma_entry_blocks_unfold(es: Seq<Entry>, n: nat)
    requires
        0 < n,
    ensures
        entry_blocks(es, n) == entry_blocks(es, (n - 1) as nat) + entry_block(es[n - 1], n - 1),
{
}

proof fn lemma_entry_blocks_contain(es: Seq<Entry>, n: nat, i: int)
    requires
        0 <= i < n,
    ensures
        contains(entry_blocks(es, n), entry_block(es[i], i)),
        i + 1 < n ==> contains(
            entry_blocks(es, n),
            entry_block(es[i], i) + entry_block(es[i + 1], i + 1),
        ),
    decreases n,
{
    let m = (n - 1) as nat;
    lemma_entry_blocks_unfold(es, n);
    if i == n - 1 {
        lemma_contains_self(entry_block(es[i], i));
        lemma_contains_right(entry_blocks(es, m), entry_block(es[i], i), entry_block(es[i], i));
    } else {
        lemma_entry_blocks_contain(es, m, i);
        lemma_contains_left(entry_blocks(es, m), entry_block(es[n - 1], n - 1), entry_block(es[i], i));
        let pair = entry_block(es[i], i) + entry_block(es[i + 1], i + 1);
        if i + 1 < n - 1 {
            lemma_contains_left(entry_blocks(es, m), entry_block(es[n - 1], n - 1), pair);
        } else {
            let k = (m - 1) as nat;
            lemma_entry_blocks_unfold(es, m);
            assert(entry_blocks(es, n) =~= entry_blocks(es, k) + pair);
            lemma_contains_self(pair);
            lemma_contains_right(entry_blocks(es, k), pair, pair);
        }
    }
}

/// Every selected entry reaches the analysis prompt: for each `i`, the prompt holds
/// the block of the `i`-th entry, numbered `i + 1` (`[i+1] <time> | Level .. | Agent: ..`
/// and the lines that follow), the block of the next entry right after it, and it
/// opens by saying how many entries were selected.
pub proof fn lemma_analysis_prompt_has_every_entry(es: Seq<Entry>, i: int)
    requires
        0 <= i < es.len(),
    ensures
        contains(analysis_prompt(es), entry_block(es[i], i)),
        entry_block(es[i], i).take(block_head(es[i], i).len() as int) == "["@ + decimal(
            (i + 1) as nat,
        ) + "] "@ + es[i].timestamp@ + " | Level "@ + decimal(es[i].level as nat) + " | Agent: "@
            + es[i].agent@ + "\n"@,
        i + 1 < es.len() ==> contains(
            analysis_prompt(es),
            entry_block(es[i], i) + entry_block(es[i + 1], i + 1),
        ),
        starts_with(
            analysis_prompt(es),
            ANALYSIS_INTRO@ + "Total entries selected: "@ + decimal(es.len())
                + "\n\n--- LOG ENTRIES ---\n\n"@,
        ),
{
    let head = ANALYSIS_INTRO@ + "Total entries selected: "@ + decimal(es.len())
        + "\n\n--- LOG ENTRIES ---\n\n"@;
    let blocks = entry_blocks(es, es.len());
    lemma_entry_blocks_contain(es, es.len(), i);
    let x = entry_block(es[i], i);
    lemma_contains_right(head, blocks, x);
    lemma_contains_left(head + blocks, ANALYSIS_OUTRO@, x);
    if i + 1 < es.len() {
        let pair = x + entry_block(es[i + 1], i + 1);
        lemma_contains_right(head, blocks, pair);
        lemma_contains_left(head + blocks, ANALYSIS_OUTRO@, pair);
    }
    let bh = block_head(es[i], i);
    assert(x.take(bh.len() as int) =~= bh);
    assert(analysis_prompt(es).subrange(0, head.len() as int) =~= head);
}

proof fn lemma_mitre_lines_unfold(s: DailyStats, n: nat)
    requires
        0 < n,
    ensures
        mitre_lines(s, n) == mitre_lines(s, (n - 1) as nat) + ("- "@ + s.top_mitre@[n - 1].0@ + ": "@
            + decimal(s.top_mitre@[n - 1].1 as nat) + " events\n"@),
{
    let t = s.top_mitre@[n - 1];
    assert(mitre_lines(s, n) =~= mitre_lines(s, (n - 1) as nat) + ("- "@ + t.0@ + ": "@ + decimal(
        t.1 as nat,
    ) + " events\n"@));
}

/// The line of the `i`-th technique in the report prompt.
pub open spec fn mitre_line_at(s: DailyStats, i: int) -> Seq<char> {
    "- "@ + s.top_mitre@[i].0@ + ": "@ + decimal(s.top_mitre@[i].1 as nat) + " events\n"@
}

proof fn lemma_mitre_lines_contain(s: DailyStats, n: nat, i: int)
    requires
        0 <= i < n,
    ensures
        contains(mitre_lines(s, n), mitre_line_at(s, i)),
        i + 1 < n ==> contains(mitre_lines(s, n), mitre_line_at(s, i) + mitre_line_at(s, i + 1)),
    decreases n,
{
    let m = (n - 1) as nat;
    lemma_mitre_lines_unfold(s, n);
    if i == n - 1 {
        lemma_contains_self(mitre_line_at(s, i));
        lemma_contains_right(mitre_lines(s, m), mitre_line_at(s, i), mitre_line_at(s, i));
    } else {
        lemma_mitre_lines_contain(s, m, i);
        lemma_contains_left(mitre_lines(s, m), mitre_line_at(s, n - 1), mitre_line_at(s, i));
        let pair = mitre_line_at(s, i) + mitre_line_at(s, i + 1);
        if i + 1 < n - 1 {
            lemma_contains_left(mitre_lines(s, m), mitre_line_at(s, n - 1), pair);
        } else {
            let k = (m - 1) as nat;
            lemma_mitre_lines_unfold(s, m);
            assert(mitre_lines(s, n) =~= mitre_lines(s, k) + pair);
            lemma_contains_self(pair);
            lemma_contains_right(mitre_lines(s, k), pair, pair);
        }
    }
}

/// Every technique reaches the report prompt: for each entry of `top_mitre`, the prompt
/// holds its line `- <technique>: <count> events`, with the next technique's line right
/// after it, so all of them appear, in order.
pub proof fn lemma_report_prompt_has_every_technique(s: DailyStats, sh: ReportShares, i: int)
    requires
        0 <= i < s.top_mitre@.len(),
    ensures
        contains(
            report_prompt(s, sh),
            "- "@ + s.top_mitre@[i].0@ + ": "@ + decimal(s.top_mitre@[i].1 as nat) + " events\n"@,
        ),
        i + 1 < s.top_mitre@.len() ==> contains(
            report_prompt(s, sh),
            "- "@ + s.top_mitre@[i].0@ + ": "@ + decimal(s.top_mitre@[i].1 as nat) + " events\n"@
                + "- "@ + s.top_mitre@[i + 1].0@ + ": "@ + decimal(s.top_mitre@[i + 1].1 as nat)
                + " events\n"@,
        ),
{
    let n = s.top_mitre@.len();
    let hdr = "**Top MITRE ATT&CK Techniques:**\n"@;
    let ml = mitre_lines(s, n);
    assert(list_mitre(s) == hdr + ml + "\n"@);
    lemma_mitre_lines_contain(s, n, i);
    let x = mitre_line_at(s, i);
    lift_mitre(s, sh, hdr, ml, x);
    if i + 1 < n {
        let pair = x + mitre_line_at(s, i + 1);
        lift_mitre(s, sh, hdr, ml, pair);
        assert(pair =~= "- "@ + s.top_mitre@[i].0@ + ": "@ + decimal(s.top_mitre@[i].1 as nat)
            + " events\n"@ + "- "@ + s.top_mitre@[i + 1].0@ + ": "@ + decimal(
            s.top_mitre@[i + 1].1 as nat,
        ) + " events\n"@);
    }
}

proof fn lift_mitre(s: DailyStats, sh: ReportShares, hdr: Seq<char>, ml: Seq<char>, x: Seq<char>)
    requires
        contains(ml, x),
        list_mitre(s) == hdr + ml + "\n"@,
    ensures
        contains(report_prompt(s, sh), x),
{
    let a = list_agents(s) + list_rules(s);
    let head = REPORT_INTRO@ + prompt_figures(s, sh);
    lemma_contains_right(hdr, ml, x);
    lemma_contains_left(hdr + ml, "\n"@, x);
    lemma_contains_right(a, list_mitre(s), x);
    lemma_contains_left(a + list_mitre(s), list_events(s), x);
    assert(prompt_lists(s) == a + list_mitre(s) + list_events(s));
    lemma_contains_right(head, prompt_lists(s), x);
    lemma_contains_left(head + prompt_lists(s), "\nWrite the executive summary now:"@, x);
}

} // verus!
