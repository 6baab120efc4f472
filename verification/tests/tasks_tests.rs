use soc_terminal::alerts::Entry;
use soc_terminal::app::App;
use soc_terminal::messages::AppMessage;
use soc_terminal::tasks::{
    export_file_name, report_file_name, Command, ReportEvent, ReportPhase, ReportRequest, ReportTask,
};

fn entry(id: &str) -> Entry {
    Entry {
        id: id.to_string(),
        timestamp: "2026-03-15 08:12:00".to_string(),
        level: 9,
        agent: "db01".to_string(),
        rule_id: "5710".to_string(),
        description: format!("event {id}"),
        raw: "{}".to_string(),
        full_log: Some("log line".to_string()),
        mitre_techniques: vec!["Brute Force".to_string()],
        mitre_ids: vec!["T1110".to_string()],
        ai_note: None,
    }
}

fn app() -> App {
    App::new(25, "openrouter:sonnet4.6".to_string(), vec!["openrouter:sonnet4.6".to_string()], "/tmp/out".to_string())
}

#[test]
fn loading_needs_an_index() {
    let mut a = app();
    assert!(matches!(a.begin_load(), Command::Nothing));
    assert_eq!(a.status, "Connecting to OpenSearch...");
}

#[test]
fn loading_asks_for_the_current_page() {
    let mut a = app();
    a.current_index = Some("idx".to_string());
    a.page = 2;
    a.filter_level = 4;
    a.filter_hours = 6;
    match a.begin_load() {
        Command::Load(r) => {
            assert_eq!(r.index, "idx");
            assert_eq!(r.size, 25);
            assert_eq!(r.from, 50);
            assert_eq!(r.filters.min_level, 4);
            assert!(r.filters.agent.is_none());
            assert_eq!(r.filters.hours, Some(6));
        }
        _ => panic!("expected a load"),
    }
    assert_eq!(a.status, " Loading...");
    a.filter_agent = "web".to_string();
    match a.begin_load() {
        Command::Load(r) => assert_eq!(r.filters.agent.as_deref(), Some("web")),
        _ => panic!("expected a load"),
    }
}

#[test]
fn analysing_nothing_says_so() {
    let mut a = app();
    a.entries = vec![entry("a")];
    assert!(matches!(a.begin_analyse(), Command::Nothing));
    assert_eq!(a.status, " No entries selected — press Space to select entries first.");
    assert!(!a.is_analysing);
}

#[test]
fn analysing_sends_the_selected_entries() {
    let mut a = app();
    a.entries = vec![entry("a"), entry("b"), entry("c")];
    a.selected_ids = vec!["c".to_string(), "a".to_string()];
    a.analysis_scroll = -3;
    a.analysis_auto_scroll = false;
    match a.begin_analyse() {
        Command::Analyse(r) => {
            assert_eq!(r.provider, "openrouter:sonnet4.6");
            let ids: Vec<&str> = r.entries.iter().map(|e| e.id.as_str()).collect();
            assert_eq!(ids, vec!["a", "c"]);
            assert_eq!(r.entries[1].description, "event c");
            assert_eq!(r.entries[1].mitre_ids, vec!["T1110".to_string()]);
        }
        _ => panic!("expected an analysis"),
    }
    assert_eq!(a.analysis_text, "Analysing 2 entries with openrouter:sonnet4.6…\n\n");
    assert!(a.is_analysing);
    assert_eq!(a.analysis_scroll, 0);
    assert!(a.analysis_auto_scroll);
}

#[test]
fn a_report_needs_an_index() {
    let mut a = app();
    assert!(matches!(a.begin_report(), Command::Nothing));
    assert_eq!(a.status, " No index selected — cannot generate report.");
}

#[test]
fn one_report_at_a_time() {
    let mut a = app();
    a.current_index = Some("idx".to_string());
    a.is_running_skill = true;
    assert!(matches!(a.begin_report(), Command::Nothing));
    assert_eq!(a.status, " A skill is already running.");
}

#[test]
fn a_report_is_asked_for_the_current_window() {
    let mut a = app();
    a.current_index = Some("idx".to_string());
    a.filter_hours = 168;
    a.history_view = Some(0);
    match a.begin_report() {
        Command::Report(r) => {
            assert_eq!(r.index, "idx");
            assert_eq!(r.hours, 168);
            assert_eq!(r.provider, "openrouter:sonnet4.6");
            assert_eq!(r.output_dir, "/tmp/out");
        }
        _ => panic!("expected a report"),
    }
    assert_eq!(a.analysis_text, "Generating Daily Activity Report…\n\n");
    assert!(a.is_analysing && a.is_running_skill);
    assert!(a.history_view.is_none());
}

#[test]
fn export_outcomes_are_shown() {
    let mut a = app();
    a.finish_export(Ok((3, "/tmp/out/soc-export-1.json".to_string())));
    assert_eq!(a.status, " Exported 3 entries → /tmp/out/soc-export-1.json");
    a.finish_export(Err("disk full".to_string()));
    assert_eq!(a.status, " Export failed: disk full");
}

#[test]
fn duplicated_entries_are_equal() {
    let e = entry("x");
    let d = e.duplicate();
    assert_eq!(d.id, e.id);
    assert_eq!(d.full_log, e.full_log);
    assert_eq!(d.mitre_techniques, e.mitre_techniques);
}

#[test]
fn indices_loaded_opens_the_alerts_index() {
    let mut a = app();
    let list = vec!["audit".to_string(), "wazuh-alerts-2".to_string(), "wazuh-alerts-1".to_string()];
    match a.handle_message(AppMessage::IndicesLoaded(list.clone())) {
        Command::Load(r) => assert_eq!(r.index, "wazuh-alerts-2"),
        _ => panic!("expected a load"),
    }
    assert_eq!(a.indices, list);
    assert_eq!(a.current_index.as_deref(), Some("wazuh-alerts-2"));
    assert_eq!(a.status, " Loading...");
}

#[test]
fn indices_loaded_falls_back_to_the_first() {
    let mut a = app();
    let cmd = a.handle_message(AppMessage::IndicesLoaded(vec!["audit".to_string(), "b".to_string()]));
    assert!(matches!(cmd, Command::Load(_)));
    assert_eq!(a.current_index.as_deref(), Some("audit"));
}

#[test]
fn no_indices_found() {
    let mut a = app();
    assert!(matches!(a.handle_message(AppMessage::IndicesLoaded(vec![])), Command::Nothing));
    assert_eq!(a.status, "No indices found.");
    assert!(a.current_index.is_none());
}

#[test]
fn entries_loaded_resets_the_cursor() {
    let mut a = app();
    a.table_cursor = 4;
    let cmd = a.handle_message(AppMessage::EntriesLoaded(vec![entry("a"), entry("b")], 60));
    assert!(matches!(cmd, Command::Nothing));
    assert_eq!(a.entries.len(), 2);
    assert_eq!(a.total_entries, 60);
    assert_eq!(a.table_cursor, 0);
    assert_eq!(a.status, " 60 entries | Page 1/3 | Selected: 0 | Lvl≥1 | Last 24h | none | LLM: openrouter:sonnet4.6");
}

#[test]
fn chunks_stream_into_the_analysis() {
    let mut a = app();
    a.analysis_text = "Analysing…\n\n".to_string();
    a.handle_message(AppMessage::LlmChunk("Two ".to_string()));
    a.handle_message(AppMessage::LlmChunk("entries.".to_string()));
    assert_eq!(a.analysis_text, "Analysing…\n\nTwo entries.");
}

#[test]
fn a_finished_analysis_goes_to_the_history() {
    let mut a = app();
    a.is_analysing = true;
    a.analysis_text = " done \n".to_string();
    a.handle_message(AppMessage::LlmDone);
    assert!(!a.is_analysing);
    assert_eq!(a.analysis_history.len(), 1);
    assert_eq!(a.analysis_history[0], "done");
    assert!(a.status.starts_with(" 0 entries"));
}

#[test]
fn an_error_while_analysing_is_appended() {
    let mut a = app();
    a.is_analysing = true;
    a.is_running_skill = true;
    a.analysis_text = "partial".to_string();
    a.handle_message(AppMessage::Error("boom".to_string()));
    assert_eq!(a.status, " Error: boom");
    assert_eq!(a.analysis_text, "partial\n\n⚠  boom");
    assert!(!a.is_analysing && !a.is_running_skill);
}

#[test]
fn an_error_while_idle_leaves_the_analysis() {
    let mut a = app();
    a.analysis_text = "old".to_string();
    a.handle_message(AppMessage::Error("timeout".to_string()));
    assert_eq!(a.status, " Error: timeout");
    assert_eq!(a.analysis_text, "old");
}

#[test]
fn status_and_saved_reports() {
    let mut a = app();
    a.handle_message(AppMessage::Status(" Fetching SOC statistics…".to_string()));
    assert_eq!(a.status, " Fetching SOC statistics…");
    a.is_running_skill = true;
    a.handle_message(AppMessage::ReportSaved("./soc-report-2026-03-15.md".to_string()));
    assert_eq!(a.status, " Report saved → ./soc-report-2026-03-15.md");
    assert!(!a.is_running_skill);
}

fn request() -> ReportRequest {
    ReportRequest {
        index: "idx".to_string(),
        hours: 24,
        provider: "local:q".to_string(),
        output_dir: ".".to_string(),
    }
}

fn texts(msgs: &[AppMessage]) -> Vec<String> {
    msgs.iter()
        .map(|m| match m {
            AppMessage::Status(s) => format!("status:{s}"),
            AppMessage::LlmChunk(s) => format!("chunk:{s}"),
            AppMessage::Error(s) => format!("error:{s}"),
            AppMessage::ReportSaved(s) => format!("saved:{s}"),
            AppMessage::LlmDone => "done".to_string(),
            _ => "other".to_string(),
        })
        .collect()
}

#[test]
fn a_report_runs_from_figures_to_file() {
    let (mut t, first) = ReportTask::start(&request());
    assert_eq!(texts(&[first]), vec!["status: Fetching SOC statistics…"]);
    assert_eq!(t.phase, ReportPhase::Fetching);
    assert_eq!(
        texts(&t.step(ReportEvent::StatsReady(150))),
        vec![
            "chunk:# SOC Daily Activity Report\n**Period:** Last 24h  |  **Index:** idx  |  **Total Alerts:** 150\n\n## Executive Summary\n\n",
            "status: Generating LLM executive summary…",
        ]
    );
    assert_eq!(texts(&t.step(ReportEvent::Chunk("All ".to_string()))), vec!["chunk:All "]);
    assert_eq!(texts(&t.step(ReportEvent::Chunk("quiet.".to_string()))), vec!["chunk:quiet."]);
    assert_eq!(t.summary, "All quiet.");
    assert!(t.step(ReportEvent::SummaryEnded).is_empty());
    assert_eq!(t.phase, ReportPhase::Saving);
    assert_eq!(
        texts(&t.step(ReportEvent::Saved("./soc-report-2026-03-15.md".to_string()))),
        vec!["saved:./soc-report-2026-03-15.md", "done"]
    );
    assert_eq!(t.phase, ReportPhase::Finished);
    assert!(t.step(ReportEvent::Chunk("late".to_string())).is_empty());
    assert_eq!(t.summary, "All quiet.");
}

#[test]
fn a_report_stops_when_the_figures_fail() {
    let (mut t, _) = ReportTask::start(&request());
    assert_eq!(texts(&t.step(ReportEvent::StatsFailed("timeout".to_string()))), vec!["error:timeout"]);
    assert_eq!(t.phase, ReportPhase::Finished);
    assert!(t.step(ReportEvent::StatsReady(3)).is_empty());
}

#[test]
fn a_report_that_cannot_be_written_still_ends() {
    let (mut t, _) = ReportTask::start(&request());
    t.step(ReportEvent::StatsReady(0));
    assert!(t.step(ReportEvent::Saved("early".to_string())).is_empty());
    t.step(ReportEvent::SummaryEnded);
    assert_eq!(
        texts(&t.step(ReportEvent::SaveFailed("read-only".to_string()))),
        vec!["error:Report save failed: read-only", "done"]
    );
}

#[test]
fn export_writes_the_selection_and_the_shown_analysis() {
    let mut a = app();
    let mut x = entry("x");
    x.raw = "{\"_id\":\"x\"}".to_string();
    let mut y = entry("y");
    y.raw = "{\"_id\":\"y\"}".to_string();
    a.entries = vec![x, y, entry("z")];
    a.selected_ids = vec!["y".to_string(), "x".to_string()];
    a.analysis_text = "live".to_string();
    let c = a.export_content();
    assert_eq!(c.entries, vec!["{\"_id\":\"x\"}".to_string(), "{\"_id\":\"y\"}".to_string()]);
    assert_eq!(c.analysis, "live");
}

#[test]
fn file_names() {
    assert_eq!(export_file_name(1773561600), "soc-export-1773561600.json");
    assert_eq!(report_file_name("2026-03-15"), "soc-report-2026-03-15.md");
}
