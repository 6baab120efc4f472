use soc_terminal::alerts::Entry;
use soc_terminal::app::App;
use soc_terminal::config::{
    default_ollama_url, default_openrouter_url, default_output_dir, default_page_size, UiConfig,
};
use soc_terminal::view::{
    centered, detail_extent, detail_title, level_tone, popup_extent, time_range_item, truncate,
    LevelTone, StatusTone,
};

fn entry(id: &str, raw: &str) -> Entry {
    Entry {
        id: id.to_string(),
        timestamp: "2026-03-15 08:12:33".to_string(),
        level: 12,
        agent: "web01".to_string(),
        rule_id: "5710".to_string(),
        description: "desc".to_string(),
        raw: raw.to_string(),
        full_log: None,
        mitre_techniques: vec![],
        mitre_ids: vec![],
        ai_note: None,
    }
}

fn app() -> App {
    App::new(50, "local:qwen".to_string(), vec![], ".".to_string())
}

#[test]
fn truncation_at_the_edges() {
    assert_eq!(truncate("abc", 3), "abc");
    assert_eq!(truncate("abcd", 3), "ab…");
    assert_eq!(truncate("abc", 0), "…");
    assert_eq!(truncate("", 0), "");
    assert_eq!(truncate("ääääää", 4), "äää…");
}

#[test]
fn level_colours() {
    assert_eq!(level_tone(15), LevelTone::Critical);
    assert_eq!(level_tone(12), LevelTone::Critical);
    assert_eq!(level_tone(11), LevelTone::High);
    assert_eq!(level_tone(8), LevelTone::High);
    assert_eq!(level_tone(7), LevelTone::Medium);
    assert_eq!(level_tone(4), LevelTone::Medium);
    assert_eq!(level_tone(3), LevelTone::Low);
    assert_eq!(level_tone(1), LevelTone::Low);
    assert_eq!(level_tone(0), LevelTone::Plain);
}

#[test]
fn popups_are_centred() {
    assert_eq!(centered(100, 40, 64, 22), (18, 9, 64, 22));
    assert_eq!(centered(101, 41, 64, 22), (18, 9, 64, 22));
    assert_eq!(centered(10, 10, 20, 20), (0, 0, 20, 20));
}

#[test]
fn popups_leave_a_margin() {
    assert_eq!(popup_extent(64, 100), 64);
    assert_eq!(popup_extent(64, 50), 46);
    assert_eq!(popup_extent(64, 3), 0);
}

#[test]
fn the_detail_popup_size() {
    assert_eq!(detail_extent(100, 40), (90, 32));
    assert_eq!(detail_extent(30, 8), (30, 8));
    assert_eq!(detail_extent(42, 12), (40, 10));
}

#[test]
fn the_detail_title() {
    assert_eq!(
        detail_title(&entry("a", "{}")),
        " web01 · 2026-03-15 08:12:33 · Lvl 12  (Esc close · ↑↓ scroll · PgUp/Dn) "
    );
}

#[test]
fn time_range_lines_mark_the_active_one() {
    assert_eq!(time_range_item(2, 24), "● Last 24 hours");
    assert_eq!(time_range_item(0, 24), "  Last 1 hour");
    assert_eq!(time_range_item(3, 168), "● Last 7 days");
}

#[test]
fn status_colours() {
    let mut a = app();
    a.status = " Error: boom".to_string();
    assert_eq!(a.status_tone(), StatusTone::Error);
    a.status = " Exported 2 entries → x".to_string();
    assert_eq!(a.status_tone(), StatusTone::Done);
    a.status = " Loading...".to_string();
    assert_eq!(a.status_tone(), StatusTone::Plain);
    a.is_analysing = true;
    a.status = " Error: boom".to_string();
    assert_eq!(a.status_tone(), StatusTone::Busy);
}

#[test]
fn table_texts() {
    let mut a = app();
    a.entries = vec![entry("a", "{}"), entry("b", "{}")];
    a.total_entries = 120;
    a.selected_ids = vec!["b".to_string()];
    assert!(a.is_selected("b"));
    assert!(!a.is_selected("a"));
    assert_eq!(a.entries_title(), " Entries (2 loaded / 120 total) ");
    a.agent_filter_input = "web".to_string();
    assert_eq!(a.agent_filter_line(), "> web█");
}

#[test]
fn analysis_titles() {
    let mut a = app();
    assert_eq!(a.analysis_title(), " Analysis  (select entries, press A) ");
    a.analysis_text = "text".to_string();
    assert_eq!(a.analysis_title(), " Analysis  ");
    a.save_analysis();
    assert_eq!(a.analysis_title(), " Analysis  · Tab = history ");
    a.history_view = Some(0);
    assert_eq!(a.analysis_title(), " Analysis  [1/1]  Tab for more ");
    a.is_analysing = true;
    assert_eq!(a.analysis_title(), " Analysis  ⟳ streaming… ");
}

#[test]
fn the_live_analysis_follows_its_end() {
    let mut a = app();
    a.analysis_text = "one two three four".to_string();
    let rows = a.analysis_rows(7, 2);
    assert_eq!(rows, vec!["three", "four"]);
    assert_eq!(a.analysis_max_scroll, 1);
}

#[test]
fn a_scrolled_analysis_stays_in_its_rows() {
    let mut a = app();
    a.analysis_text = "one two three four".to_string();
    a.analysis_auto_scroll = false;
    a.analysis_scroll = -1;
    assert_eq!(a.analysis_rows(7, 2), vec!["one two", "three"]);
    a.analysis_scroll = -9;
    assert_eq!(a.analysis_rows(7, 2), vec!["one two", "three"]);
    a.analysis_scroll = 0;
    assert_eq!(a.analysis_rows(7, 2), vec!["three", "four"]);
    assert_eq!(a.analysis_rows(7, 10), vec!["one two", "three", "four"]);
    assert_eq!(a.analysis_max_scroll, 0);
}

#[test]
fn an_analysis_panel_without_room_or_text_shows_nothing() {
    let mut a = app();
    a.analysis_max_scroll = 5;
    assert!(a.analysis_rows(10, 3).is_empty());
    a.analysis_text = "x".to_string();
    assert!(a.analysis_rows(0, 3).is_empty());
    assert!(a.analysis_rows(10, 0).is_empty());
    assert_eq!(a.analysis_max_scroll, 5);
}

#[test]
fn the_detail_rows() {
    let mut a = app();
    a.entries = vec![entry("a", "{\"_source\":{\"a\":1,\"b\":2}}")];
    a.detail_scroll = 7;
    let rows = a.detail_rows(20, 2);
    assert_eq!(rows, vec!["\"b\": 2", "}"]);
    assert_eq!(a.detail_max_scroll, 2);
    a.detail_scroll = 1;
    assert_eq!(a.detail_rows(20, 2), vec!["\"a\": 1,", "\"b\": 2"]);
}

#[test]
fn default_settings() {
    assert_eq!(default_ollama_url(), "http://localhost:11434");
    assert_eq!(default_openrouter_url(), "https://openrouter.ai/api/v1");
    assert_eq!(default_page_size(), 50);
    assert_eq!(default_output_dir(), ".");
    let ui = UiConfig::default();
    assert_eq!(ui.page_size, 50);
    assert_eq!(ui.output_dir, ".");
}
