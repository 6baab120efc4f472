use soc_terminal::alerts::{
    count_or_zero, search_error_message, stats_request, NOTABLE_EVENTS, TOP_BUCKETS,
    hours_ago, lex_le_exec, notable_filters, previous_window, search_query, tally_severity,
    visible_indices, AiNote, Clause, Entry, Filters, Hit, Query, RuleKey, SeverityCounts,
};

fn empty_hit() -> Hit {
    Hit {
        id: None,
        timestamp: None,
        timestamp_alt: None,
        level: None,
        level_alt: None,
        agent_name: None,
        host: None,
        rule_id: RuleKey::Missing,
        description: None,
        description_alt: None,
        raw: "{}".to_string(),
        full_log: None,
        mitre_techniques: vec![],
        mitre_ids: vec![],
        ai_note: None,
    }
}

#[test]
fn entry_from_a_full_hit() {
    let mut h = empty_hit();
    h.id = Some("abc123".to_string());
    h.timestamp = Some("2026-03-15T08:12:33.456+0000".to_string());
    h.timestamp_alt = Some("ignored".to_string());
    h.level = Some(12);
    h.level_alt = Some(3);
    h.agent_name = Some("98452937408.local".to_string());
    h.host = Some("ignored".to_string());
    h.rule_id = RuleKey::Number("5710".to_string());
    h.description = Some("SSH brute force".to_string());
    h.full_log = Some("sshd[1]: Failed password".to_string());
    h.mitre_techniques = vec!["Brute Force".to_string()];
    h.mitre_ids = vec!["T1110".to_string()];
    h.ai_note = Some(AiNote { reasoning: "looks bad".to_string(), confidence_pct: "87".to_string() });
    let e = Entry::from_hit(h);
    assert_eq!(e.id, "abc123");
    assert_eq!(e.timestamp, "2026-03-15 08:12:33");
    assert_eq!(e.level, 12);
    assert_eq!(e.agent, "98452937408.local");
    assert_eq!(e.rule_id, "5710");
    assert_eq!(e.description, "SSH brute force");
    assert_eq!(e.full_log.as_deref(), Some("sshd[1]: Failed password"));
    assert_eq!(e.mitre_techniques, vec!["Brute Force".to_string()]);
    assert_eq!(e.mitre_ids, vec!["T1110".to_string()]);
    assert_eq!(e.ai_note.unwrap().confidence_pct, "87");
}

#[test]
fn entry_from_a_hit_uses_the_fallback_fields() {
    let mut h = empty_hit();
    h.timestamp_alt = Some("2026-01-02T03:04:05".to_string());
    h.level_alt = Some(7);
    h.host = Some("host-1".to_string());
    h.rule_id = RuleKey::Text("sshd-01".to_string());
    h.description_alt = Some("fallback description".to_string());
    let e = Entry::from_hit(h);
    assert_eq!(e.id, "");
    assert_eq!(e.timestamp, "2026-01-02 03:04:05");
    assert_eq!(e.level, 7);
    assert_eq!(e.agent, "host-1");
    assert_eq!(e.rule_id, "sshd-01");
    assert_eq!(e.description, "fallback description");
}

#[test]
fn entry_from_an_empty_hit() {
    let e = Entry::from_hit(empty_hit());
    assert_eq!(e.id, "");
    assert_eq!(e.timestamp, "");
    assert_eq!(e.level, 0);
    assert_eq!(e.agent, "?");
    assert_eq!(e.rule_id, "");
    assert_eq!(e.description, "");
    assert_eq!(e.raw, "{}");
}

#[test]
fn entry_level_is_cut_to_a_byte() {
    let mut h = empty_hit();
    h.level = Some(300);
    assert_eq!(Entry::from_hit(h).level, 44);
}

#[test]
fn short_timestamps_are_kept_whole() {
    let mut h = empty_hit();
    h.timestamp = Some("2026-03-15T08".to_string());
    assert_eq!(Entry::from_hit(h).timestamp, "2026-03-15 08");
}

#[test]
fn hours_ago_is_date_math() {
    assert_eq!(hours_ago(24), "now-24h");
    assert_eq!(hours_ago(0), "now-0h");
}

#[test]
fn a_search_without_filters_matches_all() {
    let f = Filters { min_level: 1, agent: None, hours: None };
    assert!(matches!(search_query(&f), Query::MatchAll));
    let f = Filters { min_level: 0, agent: None, hours: None };
    assert!(matches!(search_query(&f), Query::MatchAll));
}

#[test]
fn a_search_with_every_filter() {
    let f = Filters { min_level: 3, agent: Some("web".to_string()), hours: Some(24) };
    match search_query(&f) {
        Query::All(cs) => {
            assert_eq!(cs.len(), 3);
            assert!(matches!(&cs[0], Clause::LevelAtLeast(3)));
            assert!(matches!(&cs[1], Clause::AgentLike(p) if p == "*web*"));
            assert!(matches!(&cs[2], Clause::Since(s) if s == "now-24h"));
        }
        Query::MatchAll => panic!("expected clauses"),
    }
}

#[test]
fn a_search_with_only_a_time_bound() {
    let f = Filters { min_level: 1, agent: None, hours: Some(6) };
    match search_query(&f) {
        Query::All(cs) => {
            assert_eq!(cs.len(), 1);
            assert!(matches!(&cs[0], Clause::Since(s) if s == "now-6h"));
        }
        Query::MatchAll => panic!("expected a clause"),
    }
}

#[test]
fn severity_buckets_are_tallied_last_one_winning() {
    let buckets = vec![
        ("low".to_string(), 5),
        ("critical".to_string(), 2),
        ("bogus".to_string(), 9),
        ("high".to_string(), 3),
        ("medium".to_string(), 4),
        ("low".to_string(), 6),
    ];
    assert_eq!(
        tally_severity(&buckets),
        SeverityCounts { critical: 2, high: 3, medium: 4, low: 6 }
    );
    assert_eq!(
        tally_severity(&vec![]),
        SeverityCounts { critical: 0, high: 0, medium: 0, low: 0 }
    );
}

#[test]
fn the_previous_window_is_the_same_length_before() {
    assert_eq!(previous_window(24), (48, 24));
    assert_eq!(previous_window(1), (2, 1));
}

#[test]
fn notable_events_are_level_eight_and_above() {
    let f = notable_filters(168);
    assert_eq!(f.min_level, 8);
    assert!(f.agent.is_none());
    assert_eq!(f.hours, Some(168));
}

#[test]
fn lexicographic_order() {
    assert!(lex_le_exec("abc", "abd"));
    assert!(!lex_le_exec("abd", "abc"));
    assert!(lex_le_exec("ab", "abc"));
    assert!(!lex_le_exec("abc", "ab"));
    assert!(lex_le_exec("", ""));
    assert!(lex_le_exec("same", "same"));
}

#[test]
fn indices_are_listed_without_hidden_ones_newest_first() {
    let all = vec![
        ".kibana".to_string(),
        "wazuh-alerts-4.x-2026.03.14".to_string(),
        "other".to_string(),
        "wazuh-alerts-4.x-2026.03.15".to_string(),
        ".opendistro-job".to_string(),
    ];
    assert_eq!(
        visible_indices(all),
        vec![
            "wazuh-alerts-4.x-2026.03.15".to_string(),
            "wazuh-alerts-4.x-2026.03.14".to_string(),
            "other".to_string(),
        ]
    );
    assert_eq!(visible_indices(vec![]), Vec::<String>::new());
}

#[test]
fn listed_indices_keep_duplicates() {
    let all = vec!["b".to_string(), "a".to_string(), "b".to_string()];
    assert_eq!(visible_indices(all), vec!["b".to_string(), "b".to_string(), "a".to_string()]);
}

#[test]
fn the_report_aggregation_request() {
    let r = stats_request(24);
    assert_eq!(r.since, "now-24h");
    assert_eq!(r.top, 10);
    assert_eq!(TOP_BUCKETS, 10);
    assert_eq!(NOTABLE_EVENTS, 20);
    let bands: Vec<(&str, u8, Option<u8>)> = r.bands.iter().map(|b| (b.key.as_str(), b.from, b.to)).collect();
    assert_eq!(
        bands,
        vec![("low", 1, Some(4)), ("medium", 4, Some(8)), ("high", 8, Some(12)), ("critical", 12, None)]
    );
}

#[test]
fn search_errors_and_counts() {
    assert_eq!(search_error_message(&Some("index_not_found".to_string())), "OpenSearch error: index_not_found");
    assert_eq!(search_error_message(&None), "OpenSearch error: unknown");
    assert_eq!(count_or_zero(Some(1243)), 1243);
    assert_eq!(count_or_zero(None), 0);
}
