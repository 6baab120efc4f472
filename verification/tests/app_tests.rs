use soc_terminal::alerts::Entry;
use soc_terminal::app::{time_range_hours, time_range_label, time_range_position, App, MAX_HISTORY, TIME_RANGE_COUNT};

fn entry(id: &str) -> Entry {
    Entry {
        id: id.to_string(),
        timestamp: "2026-03-15 08:12:00".to_string(),
        level: 5,
        agent: "web01".to_string(),
        rule_id: "1002".to_string(),
        description: "desc".to_string(),
        raw: format!("{{\"_id\":\"{id}\",\"_source\":{{\"rule\":{{\"level\":5}}}}}}"),
        full_log: None,
        mitre_techniques: vec![],
        mitre_ids: vec![],
        ai_note: None,
    }
}

fn tags() -> Vec<String> {
    vec!["openrouter:sonnet4.6".to_string(), "openrouter:opus4.6".to_string(), "local:qwen3.5".to_string()]
}

fn app() -> App {
    App::new(50, "openrouter:sonnet4.6".to_string(), tags(), ".".to_string())
}

fn app_with(ids: &[&str]) -> App {
    let mut a = app();
    a.entries = ids.iter().map(|i| entry(i)).collect();
    a.total_entries = ids.len();
    a
}

#[test]
fn a_new_app_starts_on_the_last_day() {
    let a = app();
    assert_eq!(a.page_size, 50);
    assert_eq!(a.filter_level, 1);
    assert_eq!(a.filter_hours, 24);
    assert_eq!(a.time_picker_cursor, 2);
    assert_eq!(a.status, "Connecting to OpenSearch...");
    assert_eq!(a.llm_provider, "openrouter:sonnet4.6");
    assert_eq!(a.llm_tags, tags());
    assert_eq!(a.output_dir, ".");
    assert!(a.current_index.is_none());
    assert!(a.entries.is_empty());
    assert!(a.selected_ids.is_empty());
    assert!(a.analysis_auto_scroll);
    assert!(a.history_view.is_none());
    assert!(!a.should_quit && !a.show_help && !a.show_detail && !a.is_analysing);
}

#[test]
fn time_ranges() {
    assert_eq!(TIME_RANGE_COUNT, 5);
    let hours: Vec<u32> = (0..TIME_RANGE_COUNT).map(time_range_hours).collect();
    assert_eq!(hours, vec![1, 6, 24, 168, 720]);
    let labels: Vec<&str> = (0..TIME_RANGE_COUNT).map(time_range_label).collect();
    assert_eq!(labels, vec!["Last 1 hour", "Last 6 hours", "Last 24 hours", "Last 7 days", "Last 30 days"]);
    assert_eq!(time_range_position(24), Some(2));
    assert_eq!(time_range_position(720), Some(4));
    assert_eq!(time_range_position(12), None);
}

#[test]
fn status_line_lists_the_state() {
    let mut a = app();
    a.total_entries = 120;
    a.update_status();
    assert_eq!(a.status, " 120 entries | Page 1/3 | Selected: 0 | Lvl≥1 | Last 24h | none | LLM: openrouter:sonnet4.6");
    a.current_index = Some("wazuh-alerts-4.x-2026.03.15".to_string());
    a.filter_agent = "web".to_string();
    a.filter_level = 8;
    a.filter_hours = 168;
    a.page = 2;
    a.selected_ids = vec!["x".to_string(), "y".to_string()];
    a.update_status();
    assert_eq!(
        a.status,
        " 120 entries | Page 3/3 | Selected: 2 | Lvl≥8 | Last 168h | Agent: web | wazuh-alerts-4.x-2026.03.15 | LLM: openrouter:sonnet4.6"
    );
}

#[test]
fn status_line_shows_one_page_when_empty() {
    let mut a = app();
    a.update_status();
    assert_eq!(a.status, " 0 entries | Page 1/1 | Selected: 0 | Lvl≥1 | Last 24h | none | LLM: openrouter:sonnet4.6");
    a.total_entries = 50;
    a.update_status();
    assert!(a.status.starts_with(" 50 entries | Page 1/1 |"));
    a.total_entries = 51;
    a.update_status();
    assert!(a.status.starts_with(" 51 entries | Page 1/2 |"));
}

#[test]
fn select_all_visible_adds_each_id_once() {
    let mut a = app_with(&["a", "b", "c"]);
    a.selected_ids = vec!["b".to_string(), "z".to_string()];
    a.select_all_visible();
    let mut ids = a.selected_ids.clone();
    ids.sort();
    assert_eq!(ids, vec!["a", "b", "c", "z"]);
    assert!(a.status.contains("Selected: 4"));
}

#[test]
fn toggling_twice_restores_the_selection() {
    let mut a = app_with(&["a", "b"]);
    a.table_cursor = 1;
    a.toggle_select_current();
    assert_eq!(a.selected_ids, vec!["b".to_string()]);
    assert!(a.status.contains("Selected: 1"));
    a.toggle_select_current();
    assert!(a.selected_ids.is_empty());
    assert!(a.status.contains("Selected: 0"));
}

#[test]
fn toggling_without_entries_changes_nothing() {
    let mut a = app();
    a.toggle_select_current();
    assert!(a.selected_ids.is_empty());
    assert_eq!(a.status, "Connecting to OpenSearch...");
}

#[test]
fn the_cursor_stays_on_the_rows() {
    let mut a = app_with(&["a", "b", "c"]);
    a.move_up();
    assert_eq!(a.table_cursor, 0);
    a.move_down();
    a.move_down();
    a.move_down();
    assert_eq!(a.table_cursor, 2);
    a.move_up();
    assert_eq!(a.table_cursor, 1);
    assert_eq!(a.current_entry().unwrap().id, "b");
    let empty = app();
    assert!(empty.current_entry().is_none());
}

#[test]
fn pages_stop_at_the_last_one() {
    let mut a = app();
    a.total_entries = 120;
    a.table_cursor = 7;
    a.next_page();
    assert_eq!((a.page, a.table_cursor), (1, 0));
    a.next_page();
    assert_eq!(a.page, 2);
    a.table_cursor = 3;
    a.next_page();
    assert_eq!((a.page, a.table_cursor), (2, 3));
    a.prev_page();
    assert_eq!((a.page, a.table_cursor), (1, 0));
    a.prev_page();
    a.prev_page();
    assert_eq!(a.page, 0);
}

#[test]
fn no_next_page_without_entries() {
    let mut a = app();
    a.next_page();
    assert_eq!(a.page, 0);
    a.total_entries = 50;
    a.next_page();
    assert_eq!(a.page, 0);
}

#[test]
fn next_then_previous_page_comes_back() {
    let mut a = app();
    a.total_entries = 500;
    a.page = 3;
    a.next_page();
    a.prev_page();
    assert_eq!(a.page, 3);
}

#[test]
fn selected_entries_follow_the_table_order() {
    let mut a = app_with(&["a", "b", "c"]);
    a.selected_ids = vec!["c".to_string(), "a".to_string(), "gone".to_string()];
    let picked: Vec<&str> = a.selected_entries().iter().map(|e| e.id.as_str()).collect();
    assert_eq!(picked, vec!["a", "c"]);
}

#[test]
fn clearing_the_selection() {
    let mut a = app_with(&["a"]);
    a.selected_ids = vec!["a".to_string()];
    a.clear_selection();
    assert!(a.selected_ids.is_empty());
    assert!(a.status.contains("Selected: 0"));
}

#[test]
fn the_model_toggle_cycles_through_every_tag() {
    let mut a = app();
    a.toggle_llm();
    assert_eq!(a.llm_provider, "openrouter:opus4.6");
    assert!(a.status.ends_with("LLM: openrouter:opus4.6"));
    a.toggle_llm();
    assert_eq!(a.llm_provider, "local:qwen3.5");
    a.toggle_llm();
    assert_eq!(a.llm_provider, "openrouter:sonnet4.6");
}

#[test]
fn the_model_toggle_starts_over_from_an_unknown_tag() {
    let mut a = App::new(50, "local:default".to_string(), tags(), ".".to_string());
    a.toggle_llm();
    assert_eq!(a.llm_provider, "openrouter:sonnet4.6");
    let mut none = App::new(50, "local:default".to_string(), vec![], ".".to_string());
    none.toggle_llm();
    assert_eq!(none.llm_provider, "local:default");
    assert_eq!(none.status, "Connecting to OpenSearch...");
}

#[test]
fn finished_analyses_are_kept_trimmed() {
    let mut a = app();
    a.analysis_text = "   \n ".to_string();
    a.save_analysis();
    assert!(a.analysis_history.is_empty());
    a.analysis_text = "  first analysis \n".to_string();
    a.history_view = Some(0);
    a.save_analysis();
    assert_eq!(a.analysis_history.len(), 1);
    assert_eq!(a.analysis_history[0], "first analysis");
    assert!(a.history_view.is_none());
}

#[test]
fn the_history_keeps_the_last_ten() {
    let mut a = app();
    for i in 0..12 {
        a.analysis_text = format!("analysis {i}");
        a.save_analysis();
    }
    assert_eq!(MAX_HISTORY, 10);
    assert_eq!(a.analysis_history.len(), 10);
    assert_eq!(a.analysis_history[0], "analysis 2");
    assert_eq!(a.analysis_history[9], "analysis 11");
}

#[test]
fn tab_steps_back_through_the_history_and_wraps() {
    let mut a = app();
    for t in ["one", "two", "three"] {
        a.analysis_text = t.to_string();
        a.save_analysis();
    }
    a.analysis_text = "live".to_string();
    a.analysis_scroll = -4;
    let mut seen = vec![a.displayed_analysis().to_string()];
    for _ in 0..4 {
        a.cycle_history();
        seen.push(a.displayed_analysis().to_string());
    }
    assert_eq!(seen, vec!["live", "three", "two", "one", "live"]);
    assert_eq!(a.analysis_scroll, 0);
    assert!(!a.analysis_auto_scroll);
}

#[test]
fn tab_without_history_changes_nothing() {
    let mut a = app();
    a.analysis_scroll = -2;
    a.cycle_history();
    assert!(a.history_view.is_none());
    assert_eq!(a.analysis_scroll, -2);
    assert!(a.analysis_auto_scroll);
}

#[test]
fn a_history_position_past_the_end_shows_nothing() {
    let mut a = app();
    a.history_view = Some(3);
    assert_eq!(a.displayed_analysis(), "");
}

#[test]
fn detail_json_is_the_indented_source() {
    let mut a = app();
    let mut e = entry("a");
    e.raw = "{\"_id\":\"a\",\"_source\":{\"agent\":{\"name\":\"web01\"},\"rule\":{\"level\":5}}}".to_string();
    a.entries = vec![e];
    assert_eq!(
        a.detail_json(),
        "{\n  \"agent\": {\n    \"name\": \"web01\"\n  },\n  \"rule\": {\n    \"level\": 5\n  }\n}"
    );
}

#[test]
fn detail_json_without_a_source_or_entry() {
    let mut a = app();
    assert_eq!(a.detail_json(), "");
    let mut e = entry("a");
    e.raw = "{\"_id\":\"a\"}".to_string();
    a.entries = vec![e];
    assert_eq!(a.detail_json(), "null");
}
