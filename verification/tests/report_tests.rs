use soc_terminal::alerts::{DailyStats, Entry};
use soc_terminal::report::{build_markdown, ReportShares};

fn entry() -> Entry {
    Entry {
        id: "a".to_string(),
        timestamp: "2026-03-15 08:12:33".to_string(),
        level: 12,
        agent: "web01".to_string(),
        rule_id: "5710".to_string(),
        description: "login | failed".to_string(),
        raw: "{}".to_string(),
        full_log: None,
        mitre_techniques: vec![],
        mitre_ids: vec![],
        ai_note: None,
    }
}

fn stats() -> DailyStats {
    DailyStats {
        index: "wazuh-alerts".to_string(),
        hours: 24,
        total: 200,
        prev_period_total: 100,
        critical: 10,
        high: 30,
        medium: 60,
        low: 100,
        unique_agents: 2,
        top_agents: vec![("web01".to_string(), 120), ("db01".to_string(), 80)],
        top_rules: vec![("5710".to_string(), "sshd | brute".to_string(), 50)],
        top_mitre: vec![("Brute Force".to_string(), 40)],
        top_entries: vec![entry()],
    }
}

fn shares() -> ReportShares {
    ReportShares {
        critical_high: "20.0%".to_string(),
        critical: "5.0%".to_string(),
        high: "15.0%".to_string(),
        medium: "30.0%".to_string(),
        low: "50.0%".to_string(),
        agents: vec!["60.0%".to_string(), "40.0%".to_string()],
        trend_pct: 100,
    }
}

#[test]
fn the_full_report() {
    let md = build_markdown(&stats(), &shares(), "\n  All quiet.  \n", "2026-03-15", "09:30:00");
    let expected = "# SOC Daily Activity Report — 2026-03-15\n\n\
| | |\n|---|---|\n\
| **Date** | 2026-03-15 |\n\
| **Report period** | Last 24 hours |\n\
| **Data source** | `wazuh-alerts` |\n\
| **Generated** | 2026-03-15 09:30:00 |\n\n\
---\n\n\
## Executive Summary\n\n\
All quiet.\n\n---\n\n\
## KPIs\n\n\
| KPI | Value |\n|-----|-------|\n\
| Total alerts | **200** |\n\
| Alert trend | ▲ 100% vs prev period (100 alerts) |\n\
| Critical (≥12) | 10 |\n\
| High (8–11) | 30 |\n\
| Medium (4–7) | 60 |\n\
| Low (1–3) | 100 |\n\
| Critical+High ratio | 20.0% |\n\
| Unique reporting agents | 2 |\n\n\
---\n\n\
## Alert Statistics\n\n\
### Severity Breakdown\n\n\
| Severity | Level Range | Count | Share |\n\
|----------|-------------|-------|-------|\n\
| Critical | ≥12 | 10 | 5.0% |\n\
| High | 8–11 | 30 | 15.0% |\n\
| Medium | 4–7 | 60 | 30.0% |\n\
| Low | 1–3 | 100 | 50.0% |\n\
| **Total** | — | **200** | 100% |\n\n\
---\n\n## Infrastructure Health\n\n\
**2 unique agent(s)** reported alerts during this period.\n\n\
### Top 10 Agents by Alert Volume\n\n\
| # | Agent | Alerts | Share |\n\
|---|-------|--------|-------|\n\
| 1 | `web01` | 120 | 60.0% |\n\
| 2 | `db01` | 80 | 40.0% |\n\
\n\
---\n\n## Top Triggered Rules\n\n\
| # | Rule ID | Description | Count |\n\
|---|---------|-------------|-------|\n\
| 1 | `5710` | sshd \\| brute | 50 |\n\
\n\
---\n\n## MITRE ATT&CK Techniques Detected\n\n\
| # | Technique | Event Count |\n\
|---|-----------|-------------|\n\
| 1 | Brute Force | 40 |\n\
\n\
---\n\n## Notable Events (Critical & High)\n\n\
| Timestamp | Level | Agent | Rule | Description |\n\
|-----------|-------|-------|------|-------------|\n\
| 2026-03-15 08:12:33 | 12 | `web01` | 5710 | login \\| failed |\n\
\n\
---\n\n\
*Generated by SOC Terminal on 2026-03-15 at 09:30:00*\n";
    assert_eq!(md, expected);
}

#[test]
fn an_empty_report() {
    let s = DailyStats {
        index: "idx".to_string(),
        hours: 1,
        total: 0,
        prev_period_total: 0,
        critical: 0,
        high: 0,
        medium: 0,
        low: 0,
        unique_agents: 0,
        top_agents: vec![],
        top_rules: vec![],
        top_mitre: vec![],
        top_entries: vec![],
    };
    let sh = ReportShares {
        critical_high: "x".to_string(),
        critical: "x".to_string(),
        high: "x".to_string(),
        medium: "x".to_string(),
        low: "x".to_string(),
        agents: vec![],
        trend_pct: 0,
    };
    let md = build_markdown(&s, &sh, "", "2026-01-01", "00:00:00");
    assert!(md.contains("| Alert trend | — |\n"));
    assert!(md.contains("| Critical+High ratio | N/A |\n"));
    assert!(md.contains("| Critical | ≥12 | 0 | — |\n"));
    assert!(md.contains("| Low | 1–3 | 0 | — |\n"));
    assert!(md.contains("## Executive Summary\n\n\n\n---\n\n"));
    assert!(md.contains("**0 unique agent(s)** reported alerts during this period.\n\n---\n\n*Generated by SOC Terminal on 2026-01-01 at 00:00:00*\n"));
    assert!(!md.contains("Top 10 Agents"));
    assert!(!md.contains("Top Triggered Rules"));
    assert!(!md.contains("MITRE"));
    assert!(!md.contains("Notable Events"));
}

#[test]
fn the_trend_down_and_unchanged() {
    let mut s = stats();
    let mut sh = shares();
    s.total = 50;
    sh.trend_pct = 50;
    let md = build_markdown(&s, &sh, "x", "d", "t");
    assert!(md.contains("| Alert trend | ▼ 50% vs prev period (100 alerts) |\n"));
    s.total = 100;
    sh.trend_pct = 0;
    let md = build_markdown(&s, &sh, "x", "d", "t");
    assert!(md.contains("| Alert trend | = unchanged vs prev period (100 alerts) |\n"));
}
