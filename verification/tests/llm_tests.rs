use soc_terminal::alerts::{AiNote, DailyStats, Entry};
use soc_terminal::config::{LlmConfig, OllamaConfig, OllamaModel, OpenRouterConfig, OpenRouterModel};
use soc_terminal::llm::{
    build_analysis_prompt, build_report_prompt, default_provider, llm_tags, ndjson_step,
    report_stream_header, sse_line, sse_step, stream_plan, LineBuffer, LlmError, SseLine, StreamFormat, ANALYSIS_INTRO,
    ANALYSIS_OUTRO, REPORT_INTRO,
};
use soc_terminal::report::ReportShares;

const INTRO: &str = "You are a senior SOC analyst. \
             Your job is to explain what these logs show in plain, clear terms. \
             Be descriptive and analytical: explain what each event means, what process or \
             system behaviour caused it, and how the events relate to each other. \
             Stay realistic — only describe what the data actually shows. \
             Do not invent attack scenarios or jump to dramatic conclusions. \
             If the logs look like normal system activity, say so plainly.\n\n";

const OUTRO: &str = "--- END OF ENTRIES ---\n\n\
             Write one short paragraph explaining what the logs show. \
             No headers, no bullet points, no markdown. Stay factual.\n";

const REPORT: &str = "You are a senior SOC analyst writing a daily security operations report.\n\
             Based on the statistics below, write a concise executive summary in markdown.\n\
             Cover:\n\
             1. Overall activity level and alert trend vs previous period.\n\
             2. Infrastructure health observations (agent coverage, noisy endpoints).\n\
             3. Top risk areas, notable rule patterns, and MITRE ATT&CK techniques detected.\n\
             4. Any recommended actions or watch items for the next shift.\n\
             Be factual and professional. Use 3–5 short paragraphs. Markdown bold/lists are fine.\n\n";

fn config(provider: &str, api_key: &str) -> LlmConfig {
    LlmConfig {
        provider: provider.to_string(),
        openrouter: OpenRouterConfig {
            api_key: api_key.to_string(),
            url: "https://openrouter.ai/api/v1".to_string(),
            models: vec![
                OpenRouterModel { id: "mistralai/mistral-large".to_string(), tag: "sonnet4.6".to_string() },
                OpenRouterModel { id: "openai/gpt-4.1".to_string(), tag: "gpt4.1".to_string() },
            ],
        },
        ollama: OllamaConfig {
            url: "http://localhost:11434".to_string(),
            models: vec![OllamaModel { id: "qwen3.5:0.8b".to_string(), tag: "qwen3.5".to_string() }],
        },
    }
}

fn entry(id: &str, level: u8, rule: &str) -> Entry {
    Entry {
        id: id.to_string(),
        timestamp: "2026-03-15 08:12:33".to_string(),
        level,
        agent: "web01".to_string(),
        rule_id: rule.to_string(),
        description: "SSH brute force".to_string(),
        raw: "{}".to_string(),
        full_log: None,
        mitre_techniques: vec![],
        mitre_ids: vec![],
        ai_note: None,
    }
}

fn stats() -> DailyStats {
    DailyStats {
        index: "wazuh-alerts-4.x-2026.03.15".to_string(),
        hours: 24,
        total: 150,
        prev_period_total: 100,
        critical: 5,
        high: 25,
        medium: 40,
        low: 80,
        unique_agents: 3,
        top_agents: vec![("web01".to_string(), 100), ("db01".to_string(), 50)],
        top_rules: vec![("5710".to_string(), "sshd: brute force".to_string(), 60)],
        top_mitre: vec![("Brute Force".to_string(), 45)],
        top_entries: vec![entry("a", 12, "5710")],
    }
}

fn shares() -> ReportShares {
    ReportShares {
        critical_high: "20.0%".to_string(),
        critical: "3.3%".to_string(),
        high: "16.7%".to_string(),
        medium: "26.7%".to_string(),
        low: "53.3%".to_string(),
        agents: vec!["66.7%".to_string(), "33.3%".to_string()],
        trend_pct: 50,
    }
}

#[test]
fn the_prompt_texts() {
    assert_eq!(ANALYSIS_INTRO, INTRO);
    assert_eq!(ANALYSIS_OUTRO, OUTRO);
    assert_eq!(REPORT_INTRO, REPORT);
}

#[test]
fn tags_list_hosted_then_local_models() {
    assert_eq!(
        llm_tags(&config("openrouter", "")),
        vec!["openrouter:sonnet4.6", "openrouter:gpt4.1", "local:qwen3.5"]
    );
}

#[test]
fn the_default_provider_follows_the_settings() {
    let tags = llm_tags(&config("openrouter", ""));
    assert_eq!(default_provider("openrouter", &tags), "openrouter:sonnet4.6");
    assert_eq!(default_provider("ollama", &tags), "local:qwen3.5");
    let hosted = vec!["openrouter:x".to_string()];
    assert_eq!(default_provider("ollama", &hosted), "openrouter:x");
    let local = vec!["local:y".to_string()];
    assert_eq!(default_provider("openrouter", &local), "local:y");
    assert_eq!(default_provider("openrouter", &vec![]), "local:default");
}

#[test]
fn hosted_models_are_found_by_tag() {
    assert_eq!(
        config("openrouter:gpt4.1", "").resolve_openrouter_model().as_deref(),
        Some("openai/gpt-4.1")
    );
    assert_eq!(config("openrouter:nope", "").resolve_openrouter_model(), None);
    assert_eq!(config("local:qwen3.5", "").resolve_openrouter_model(), None);
}

#[test]
fn local_models_fall_back_to_the_tag() {
    assert_eq!(config("local:qwen3.5", "").resolve_ollama_model().as_deref(), Some("qwen3.5:0.8b"));
    assert_eq!(config("local:llama3", "").resolve_ollama_model().as_deref(), Some("llama3"));
    assert_eq!(config("openrouter:sonnet4.6", "").resolve_ollama_model(), None);
}

#[test]
fn a_hosted_plan() {
    let p = stream_plan(&config("openrouter:sonnet4.6", "sk-or-1")).unwrap();
    assert_eq!(p.format, StreamFormat::Sse);
    assert_eq!(p.url, "https://openrouter.ai/api/v1/chat/completions");
    assert_eq!(p.model, "mistralai/mistral-large");
    assert_eq!(p.api_key.as_deref(), Some("sk-or-1"));
    let q = stream_plan(&config("openrouter:sonnet4.6", "")).unwrap();
    assert!(q.api_key.is_none());
}

#[test]
fn a_local_plan() {
    let p = stream_plan(&config("local:qwen3.5", "sk-or-1")).unwrap();
    assert_eq!(p.format, StreamFormat::Ndjson);
    assert_eq!(p.url, "http://localhost:11434/api/chat");
    assert_eq!(p.model, "qwen3.5:0.8b");
    assert!(p.api_key.is_none());
}

#[test]
fn plans_that_cannot_be_made() {
    let e = stream_plan(&config("openrouter:nope", "")).err().unwrap();
    assert_eq!(e, LlmError::UnknownModelTag("openrouter:nope".to_string()));
    assert_eq!(e.message(), "Unknown model tag: openrouter:nope");
    let f = stream_plan(&config("bogus", "")).err().unwrap();
    assert_eq!(f, LlmError::UnknownProvider("bogus".to_string()));
    assert_eq!(f.message(), "Unknown LLM provider: bogus");
}

#[test]
fn the_analysis_prompt_of_no_entries() {
    let p = build_analysis_prompt(&vec![]);
    assert_eq!(p, format!("{INTRO}Total entries selected: 0\n\n--- LOG ENTRIES ---\n\n{OUTRO}"));
}

#[test]
fn the_analysis_prompt_describes_each_entry() {
    let mut a = entry("a", 12, "5710");
    a.full_log = Some(format!("{}tail", "x".repeat(300)));
    a.mitre_techniques = vec!["Brute Force".to_string(), "Valid Accounts".to_string()];
    a.mitre_ids = vec!["T1110".to_string(), "T1078".to_string()];
    a.ai_note = Some(AiNote { reasoning: "repeated failures".to_string(), confidence_pct: "87".to_string() });
    let mut b = entry("b", 3, "");
    b.description = "no rule id".to_string();
    let p = build_analysis_prompt(&vec![a, b]);
    let expected = format!(
        "{INTRO}Total entries selected: 2\n\n--- LOG ENTRIES ---\n\n\
         [1] 2026-03-15 08:12:33 | Level 12 | Agent: web01\n\
         \x20   Rule 5710: SSH brute force\n\
         \x20   Log: {}\n\
         \x20   MITRE: Brute Force, Valid Accounts (T1110, T1078)\n\
         \x20   AI note (87%): repeated failures\n\
         \n\
         [2] 2026-03-15 08:12:33 | Level 3 | Agent: web01\n\
         \x20   no rule id\n\
         \n\
         {OUTRO}",
        "x".repeat(300)
    );
    assert_eq!(p, expected);
}

#[test]
fn the_report_prompt() {
    let p = build_report_prompt(&stats(), &shares());
    let expected = format!(
        "{REPORT}**Period:** Last 24 hours\n\
         **Index:** wazuh-alerts-4.x-2026.03.15\n\
         **Total Alerts:** 150 (UP 50% vs previous 24-hour window (100 alerts))\n\n\
         **Severity Breakdown:**\n\
         - Critical (≥12): 5\n\
         - High (8–11): 25\n\
         - Medium (4–7): 40\n\
         - Low (1–3): 80\n\
         - Critical+High ratio: 20.0%\n\n\
         **Infrastructure:** 3 unique agents reported alerts this period.\n\n\
         **Top Agents by Alert Volume:**\n\
         - web01: 100 alerts\n\
         - db01: 50 alerts\n\n\
         **Top Triggered Rules:**\n\
         - Rule 5710 (60x): sshd: brute force\n\n\
         **Top MITRE ATT&CK Techniques:**\n\
         - Brute Force: 45 events\n\n\
         **Sample High/Critical Events:**\n\
         - [2026-03-15 08:12:33  Lvl12] web01: SSH brute force\n\n\
         \nWrite the executive summary now:"
    );
    assert_eq!(p, expected);
}

#[test]
fn the_report_prompt_without_data() {
    let s = DailyStats {
        index: "idx".to_string(),
        hours: 6,
        total: 0,
        prev_period_total: 0,
        critical: 0,
        high: 0,
        medium: 0,
        low: 0,
        unique_agents: 0,
        top_agents: vec![],
        top_rules: vec![],
        top_mitre: vec![],
        top_entries: vec![],
    };
    let sh = ReportShares {
        critical_high: "ignored".to_string(),
        critical: String::new(),
        high: String::new(),
        medium: String::new(),
        low: String::new(),
        agents: vec![],
        trend_pct: 0,
    };
    let p = build_report_prompt(&s, &sh);
    let expected = format!(
        "{REPORT}**Period:** Last 6 hours\n\
         **Index:** idx\n\
         **Total Alerts:** 0 (no previous period data)\n\n\
         **Severity Breakdown:**\n\
         - Critical (≥12): 0\n\
         - High (8–11): 0\n\
         - Medium (4–7): 0\n\
         - Low (1–3): 0\n\
         - Critical+High ratio: N/A\n\n\
         **Infrastructure:** 0 unique agents reported alerts this period.\n\n\
         \nWrite the executive summary now:"
    );
    assert_eq!(p, expected);
}

#[test]
fn the_report_prompt_words_the_trend() {
    let mut s = stats();
    let mut sh = shares();
    s.total = 80;
    sh.trend_pct = 20;
    assert!(build_report_prompt(&s, &sh).contains("**Total Alerts:** 80 (DOWN 20% vs previous 24-hour window (100 alerts))\n"));
    s.total = 100;
    sh.trend_pct = 0;
    assert!(build_report_prompt(&s, &sh).contains("**Total Alerts:** 100 (UNCHANGED vs previous 24-hour window)\n"));
}

#[test]
fn the_report_prompt_lists_at_most_ten_events() {
    let mut s = stats();
    s.top_entries = (0..12).map(|i| entry(&format!("e{i}"), 9, "1")).collect();
    let p = build_report_prompt(&s, &shares());
    assert_eq!(p.matches("  Lvl9] web01: SSH brute force\n").count(), 10);
}

#[test]
fn the_report_stream_header() {
    assert_eq!(
        report_stream_header(24, "idx", 150),
        "# SOC Daily Activity Report\n**Period:** Last 24h  |  **Index:** idx  |  **Total Alerts:** 150\n\n## Executive Summary\n\n"
    );
}

#[test]
fn the_line_buffer_yields_complete_lines() {
    let mut b = LineBuffer::new();
    assert!(b.next_line().is_none());
    b.push_text("data: {\"a\":1}\n\nda");
    assert_eq!(b.next_line().as_deref(), Some("data: {\"a\":1}"));
    assert_eq!(b.next_line().as_deref(), Some(""));
    assert!(b.next_line().is_none());
    b.push_text("ta: [DONE]\r\n");
    assert_eq!(b.next_line().as_deref(), Some("data: [DONE]"));
    assert!(b.next_line().is_none());
}

#[test]
fn server_sent_event_lines() {
    assert!(matches!(sse_line("data: [DONE]"), SseLine::Done));
    assert!(matches!(sse_line("data: {\"x\":1}"), SseLine::Data(d) if d == "{\"x\":1}"));
    assert!(matches!(sse_line("data: "), SseLine::Data(d) if d.is_empty()));
    assert!(matches!(sse_line("data:[DONE]"), SseLine::Skip));
    assert!(matches!(sse_line(": keep-alive"), SseLine::Skip));
    assert!(matches!(sse_line(""), SseLine::Skip));
}

#[test]
fn hosted_reply_lines() {
    let s = sse_step("data: {\"choices\":[{\"delta\":{\"content\":\"Two entries\"}}]}");
    assert_eq!(s.text.as_deref(), Some("Two entries"));
    assert!(!s.done);
    let d = sse_step("data: [DONE]");
    assert!(d.text.is_none() && d.done);
    let n = sse_step("data: not json");
    assert!(n.text.is_none() && !n.done);
    let e = sse_step("data: {\"choices\":[]}");
    assert!(e.text.is_none() && !e.done);
    let k = sse_step(": keep-alive");
    assert!(k.text.is_none() && !k.done);
    let o = sse_step("data: {\"choices\":{\"0\":{\"delta\":{\"content\":\"x\"}}}}");
    assert!(o.text.is_none());
}

#[test]
fn local_reply_lines() {
    let a = ndjson_step("{\"message\":{\"content\":\"abc\"},\"done\":false}");
    assert_eq!(a.text.as_deref(), Some("abc"));
    assert!(!a.done);
    let b = ndjson_step("{\"message\":{\"content\":\"\"},\"done\":true}");
    assert_eq!(b.text.as_deref(), Some(""));
    assert!(b.done);
    let c = ndjson_step("{\"done\":true}");
    assert!(c.text.is_none() && c.done);
    let d = ndjson_step("");
    assert!(d.text.is_none() && !d.done);
    let e = ndjson_step("garbage");
    assert!(e.text.is_none() && !e.done);
    let f = ndjson_step("{\"done\":\"yes\"}");
    assert!(!f.done);
}
