use soc_terminal::alerts::Entry;
use soc_terminal::app::App;
use soc_terminal::input::{Key, KeyCode};
use soc_terminal::skills::{skill, skills, SKILL_COUNT};
use soc_terminal::tasks::Command;

fn entry(id: &str) -> Entry {
    Entry {
        id: id.to_string(),
        timestamp: "2026-03-15 08:12:00".to_string(),
        level: 3,
        agent: "web01".to_string(),
        rule_id: "1002".to_string(),
        description: "desc".to_string(),
        raw: "{}".to_string(),
        full_log: None,
        mitre_techniques: vec![],
        mitre_ids: vec![],
        ai_note: None,
    }
}

fn app() -> App {
    let mut a = App::new(
        10,
        "openrouter:a".to_string(),
        vec!["openrouter:a".to_string(), "local:b".to_string()],
        "exports".to_string(),
    );
    a.indices = vec!["idx-3".to_string(), "idx-2".to_string(), "idx-1".to_string()];
    a.current_index = Some("idx-2".to_string());
    a.entries = vec![entry("a"), entry("b")];
    a.total_entries = 25;
    a
}

fn ch(c: char) -> Key {
    Key { code: KeyCode::Char(c), ctrl: false }
}

fn ctrl(c: char) -> Key {
    Key { code: KeyCode::Char(c), ctrl: true }
}

fn key(code: KeyCode) -> Key {
    Key { code, ctrl: false }
}

#[test]
fn quitting() {
    let mut a = app();
    assert!(matches!(a.handle_key(ch('q')), Command::Nothing));
    assert!(a.should_quit);
    let mut b = app();
    b.handle_key(ctrl('c'));
    assert!(b.should_quit);
    let mut c = app();
    c.handle_key(ch('Q'));
    assert!(c.should_quit);
}

#[test]
fn c_clears_and_control_c_quits() {
    let mut a = app();
    a.selected_ids = vec!["a".to_string()];
    a.handle_key(ch('c'));
    assert!(a.selected_ids.is_empty());
    assert!(!a.should_quit);
}

#[test]
fn any_key_closes_the_help() {
    let mut a = app();
    a.handle_key(ch('?'));
    assert!(a.show_help);
    a.handle_key(ch('q'));
    assert!(!a.show_help);
    assert!(!a.should_quit);
}

#[test]
fn navigation_and_selection() {
    let mut a = app();
    a.handle_key(ch('j'));
    assert_eq!(a.table_cursor, 1);
    a.handle_key(key(KeyCode::Down));
    assert_eq!(a.table_cursor, 1);
    a.handle_key(ch(' '));
    assert_eq!(a.selected_ids, vec!["b".to_string()]);
    a.handle_key(key(KeyCode::Up));
    assert_eq!(a.table_cursor, 0);
    a.handle_key(ctrl('a'));
    assert_eq!(a.selected_ids.len(), 2);
}

#[test]
fn enter_opens_the_detail_only_on_an_entry() {
    let mut a = app();
    a.detail_scroll = 5;
    a.handle_key(key(KeyCode::Enter));
    assert!(a.show_detail);
    assert_eq!(a.detail_scroll, 0);
    let mut b = app();
    b.entries.clear();
    b.handle_key(key(KeyCode::Enter));
    assert!(!b.show_detail);
}

#[test]
fn the_detail_panel_scrolls_within_its_rows() {
    let mut a = app();
    a.show_detail = true;
    a.detail_max_scroll = 12;
    a.handle_key(ch('j'));
    assert_eq!(a.detail_scroll, 1);
    a.handle_key(key(KeyCode::PageDown));
    assert_eq!(a.detail_scroll, 11);
    a.handle_key(key(KeyCode::PageDown));
    assert_eq!(a.detail_scroll, 12);
    a.handle_key(key(KeyCode::Down));
    assert_eq!(a.detail_scroll, 12);
    a.handle_key(key(KeyCode::PageUp));
    assert_eq!(a.detail_scroll, 2);
    a.handle_key(key(KeyCode::PageUp));
    assert_eq!(a.detail_scroll, 0);
    a.handle_key(ch('k'));
    assert_eq!(a.detail_scroll, 0);
    a.handle_key(key(KeyCode::Esc));
    assert!(!a.show_detail);
}

#[test]
fn the_index_picker_starts_on_the_current_index_and_switches() {
    let mut a = app();
    a.selected_ids = vec!["a".to_string()];
    a.page = 2;
    a.handle_key(ch('i'));
    assert!(a.show_index_picker);
    assert_eq!(a.index_picker_cursor, 1);
    a.handle_key(ch('j'));
    a.handle_key(ch('j'));
    assert_eq!(a.index_picker_cursor, 2);
    match a.handle_key(key(KeyCode::Enter)) {
        Command::Load(r) => {
            assert_eq!(r.index, "idx-1");
            assert_eq!(r.from, 0);
        }
        _ => panic!("expected a load"),
    }
    assert_eq!(a.current_index.as_deref(), Some("idx-1"));
    assert_eq!(a.page, 0);
    assert!(a.selected_ids.is_empty());
    assert!(!a.show_index_picker);
}

#[test]
fn the_index_picker_closes_on_escape() {
    let mut a = app();
    a.current_index = Some("missing".to_string());
    a.index_picker_cursor = 2;
    a.handle_key(ch('I'));
    assert_eq!(a.index_picker_cursor, 0);
    a.handle_key(key(KeyCode::Up));
    assert_eq!(a.index_picker_cursor, 0);
    assert!(matches!(a.handle_key(key(KeyCode::Esc)), Command::Nothing));
    assert!(!a.show_index_picker);
    assert_eq!(a.current_index.as_deref(), Some("missing"));
}

#[test]
fn the_time_picker_applies_a_range() {
    let mut a = app();
    a.page = 1;
    a.handle_key(ch('t'));
    assert!(a.show_time_picker);
    assert_eq!(a.time_picker_cursor, 2);
    a.handle_key(ch('j'));
    a.handle_key(ch('j'));
    a.handle_key(ch('j'));
    assert_eq!(a.time_picker_cursor, 4);
    match a.handle_key(key(KeyCode::Enter)) {
        Command::Load(r) => assert_eq!(r.filters.hours, Some(720)),
        _ => panic!("expected a load"),
    }
    assert_eq!(a.filter_hours, 720);
    assert_eq!(a.page, 0);
    assert!(!a.show_time_picker);
}

#[test]
fn the_time_picker_starts_in_the_middle_for_other_ranges() {
    let mut a = app();
    a.filter_hours = 5;
    a.handle_key(ch('T'));
    assert_eq!(a.time_picker_cursor, 2);
    a.handle_key(ch('q'));
    assert!(!a.show_time_picker);
    a.filter_hours = 6;
    a.handle_key(ch('t'));
    assert_eq!(a.time_picker_cursor, 1);
}

#[test]
fn typing_an_agent_filter() {
    let mut a = app();
    a.filter_agent = "db".to_string();
    a.handle_key(ch('f'));
    assert!(a.show_agent_filter);
    assert_eq!(a.agent_filter_input, "db");
    a.handle_key(key(KeyCode::Backspace));
    a.handle_key(key(KeyCode::Backspace));
    a.handle_key(key(KeyCode::Backspace));
    assert_eq!(a.agent_filter_input, "");
    for c in " web ".chars() {
        a.handle_key(ch(c));
    }
    match a.handle_key(key(KeyCode::Enter)) {
        Command::Load(r) => assert_eq!(r.filters.agent.as_deref(), Some("web")),
        _ => panic!("expected a load"),
    }
    assert_eq!(a.filter_agent, "web");
    assert!(!a.show_agent_filter);
}

#[test]
fn control_u_clears_the_agent_input_and_escape_keeps_the_filter() {
    let mut a = app();
    a.show_agent_filter = true;
    a.agent_filter_input = "abc".to_string();
    a.handle_key(ctrl('u'));
    assert_eq!(a.agent_filter_input, "");
    a.handle_key(ch('q'));
    assert_eq!(a.agent_filter_input, "q");
    a.handle_key(key(KeyCode::Esc));
    assert!(!a.show_agent_filter);
    assert_eq!(a.filter_agent, "");
}

#[test]
fn the_skill_picker_runs_the_daily_report() {
    let mut a = app();
    a.handle_key(ch('s'));
    assert!(a.show_skill_picker);
    a.handle_key(ch('j'));
    assert_eq!(a.skill_picker_cursor, 0);
    match a.handle_key(key(KeyCode::Enter)) {
        Command::Report(r) => {
            assert_eq!(r.index, "idx-2");
            assert_eq!(r.hours, 24);
            assert_eq!(r.output_dir, "exports");
        }
        _ => panic!("expected a report"),
    }
    assert!(!a.show_skill_picker);
    assert!(a.is_running_skill);
}

#[test]
fn the_skills_on_offer() {
    assert_eq!(SKILL_COUNT, 1);
    let s = skill(0);
    assert_eq!(s.id, "daily_report");
    assert_eq!(s.name, "Daily Activity Report");
    assert_eq!(s.description, "Aggregate SOC data for the selected time window and generate a markdown report");
    assert_eq!(skills().len(), 1);
}

#[test]
fn analyse_key_clears_the_history_view() {
    let mut a = app();
    a.history_view = Some(0);
    a.selected_ids = vec!["a".to_string()];
    match a.handle_key(ch('A')) {
        Command::Analyse(r) => assert_eq!(r.entries.len(), 1),
        _ => panic!("expected an analysis"),
    }
    assert!(a.history_view.is_none());
}

#[test]
fn reload_and_pages() {
    let mut a = app();
    assert!(matches!(a.handle_key(ch('r')), Command::Load(_)));
    match a.handle_key(key(KeyCode::Right)) {
        Command::Load(r) => assert_eq!(r.from, 10),
        _ => panic!("expected a load"),
    }
    a.handle_key(ch('n'));
    assert_eq!(a.page, 2);
    a.handle_key(ch('n'));
    assert_eq!(a.page, 2);
    match a.handle_key(ch('p')) {
        Command::Load(r) => assert_eq!(r.from, 10),
        _ => panic!("expected a load"),
    }
    a.handle_key(key(KeyCode::Left));
    a.handle_key(key(KeyCode::Left));
    assert_eq!(a.page, 0);
}

#[test]
fn export_goes_to_the_output_directory() {
    let mut a = app();
    match a.handle_key(ch('e')) {
        Command::Export(dir) => assert_eq!(dir, "exports"),
        _ => panic!("expected an export"),
    }
}

#[test]
fn the_level_filter_stays_between_one_and_fifteen() {
    let mut a = app();
    a.handle_key(ch('-'));
    assert_eq!(a.filter_level, 1);
    for _ in 0..20 {
        a.handle_key(ch('+'));
    }
    assert_eq!(a.filter_level, 15);
    match a.handle_key(ch('=')) {
        Command::Load(r) => assert_eq!(r.filters.min_level, 15),
        _ => panic!("expected a load"),
    }
    a.handle_key(ch('-'));
    assert_eq!(a.filter_level, 14);
}

#[test]
fn the_analysis_scrolls_between_top_and_bottom() {
    let mut a = app();
    a.analysis_max_scroll = 2;
    a.handle_key(ch('['));
    assert!(!a.analysis_auto_scroll);
    assert_eq!(a.analysis_scroll, -1);
    a.handle_key(ch('['));
    a.handle_key(ch('['));
    assert_eq!(a.analysis_scroll, -2);
    a.handle_key(ch(']'));
    assert_eq!(a.analysis_scroll, -1);
    a.handle_key(ch(']'));
    a.handle_key(ch(']'));
    assert_eq!(a.analysis_scroll, 0);
}

#[test]
fn tab_help_and_model_keys() {
    let mut a = app();
    a.handle_key(ch('l'));
    assert_eq!(a.llm_provider, "local:b");
    a.handle_key(ch('L'));
    assert_eq!(a.llm_provider, "openrouter:a");
    a.analysis_text = "x".to_string();
    a.save_analysis();
    a.handle_key(key(KeyCode::Tab));
    assert_eq!(a.history_view, Some(0));
    a.handle_key(ch('h'));
    assert!(a.show_help);
}

#[test]
fn other_keys_do_nothing() {
    let mut a = app();
    assert!(matches!(a.handle_key(key(KeyCode::Other)), Command::Nothing));
    assert!(matches!(a.handle_key(ch('z')), Command::Nothing));
    assert_eq!(a.table_cursor, 0);
    assert!(!a.should_quit);
}
