//! The markdown daily activity report.
use vstd::prelude::*;
use crate::alerts::{DailyStats, Entry};
use crate::text::{contains, lemma_contains_left, lemma_contains_right, lemma_contains_self};
use crate::text::{
    decimal, push_decimal, push_replaced, push_signed, push_str, replace_char, signed_decimal, trim,
    trimmed,
};

verus! {

broadcast use vstd::string::group_string_axioms;

/// The percentages of a report, formatted, as the report prints them.
#[derive(Debug, Clone)]
pub struct ReportShares {
    /// The share of critical and high alerts in the total (e.g. `"12.5%"`).
    pub critical_high: String,
    /// The share of each severity in the total.
    pub critical: String,
    pub high: String,
    pub medium: String,
    pub low: String,
    /// The share of each top agent in the total, in the order of `DailyStats::top_agents`.
    pub agents: Vec<String>,
    /// The change of the total against the previous window, in whole percent.
    pub trend_pct: i64,
}

// ----------------------------------------------------------------------------
// Specification
// ----------------------------------------------------------------------------

pub open spec fn dec(n: usize) -> Seq<char> {
    decimal(n as nat)
}

/// `share` when there are alerts, else a dash.
pub open spec fn share_or_dash(total: usize, share: Seq<char>) -> Seq<char> {
    if total > 0 {
        share
    } else {
        "—"@
    }
}

/// A table cell's text: `|` escaped.
pub open spec fn cell(s: Seq<char>) -> Seq<char> {
    replace_char(s, '|', "\\|"@)
}

/// The change of the total against the previous window, as the report words it.
pub open spec fn trend_text(s: DailyStats, pct: i64) -> Seq<char> {
    if s.prev_period_total == 0 {
        "—"@
    } else {
        let delta = (s.total as i64) as int - (s.prev_period_total as i64) as int;
        if delta > 0 {
            "▲ "@ + signed_decimal(pct as int) + "% vs prev period ("@ + dec(s.prev_period_total)
                + " alerts)"@
        } else if delta < 0 {
            "▼ "@ + signed_decimal(pct as int) + "% vs prev period ("@ + dec(s.prev_period_total)
                + " alerts)"@
        } else {
            "= unchanged vs prev period ("@ + dec(s.prev_period_total) + " alerts)"@
        }
    }
}

pub open spec fn title_section(s: DailyStats, date: Seq<char>, time: Seq<char>) -> Seq<char> {
    "# SOC Daily Activity Report — "@ + date + "\n\n"@ + "| | |\n|---|---|\n"@ + "| **Date** | "@
        + date + " |\n"@ + "| **Report period** | Last "@ + decimal(s.hours as nat) + " hours |\n"@
        + "| **Data source** | `"@ + s.index@ + "` |\n"@ + "| **Generated** | "@ + date + " "@
        + time + " |\n\n"@ + "---\n\n"@
}

pub open spec fn summary_section(summary: Seq<char>) -> Seq<char> {
    "## Executive Summary\n\n"@ + trim(summary) + "\n\n---\n\n"@
}

pub open spec fn kpi_head(s: DailyStats, sh: ReportShares) -> Seq<char> {
    "## KPIs\n\n"@ + "| KPI | Value |\n|-----|-------|\n"@ + "| Total alerts | **"@ + dec(s.total)
        + "** |\n"@ + "| Alert trend | "@ + trend_text(s, sh.trend_pct) + " |\n"@
}

pub open spec fn kpi_counts(s: DailyStats) -> Seq<char> {
    "| Critical (≥12) | "@ + dec(s.critical) + " |\n"@ + "| High (8–11) | "@ + dec(s.high) + " |\n"@
        + "| Medium (4–7) | "@ + dec(s.medium) + " |\n"@ + "| Low (1–3) | "@ + dec(s.low) + " |\n"@
}

pub open spec fn kpi_tail(s: DailyStats, sh: ReportShares) -> Seq<char> {
    "| Critical+High ratio | "@ + (if s.total > 0 {
        sh.critical_high@
    } else {
        "N/A"@
    }) + " |\n"@ + "| Unique reporting agents | "@ + dec(s.unique_agents) + " |\n\n"@ + "---\n\n"@
}

pub open spec fn kpi_section(s: DailyStats, sh: ReportShares) -> Seq<char> {
    kpi_head(s, sh) + kpi_counts(s) + kpi_tail(s, sh)
}

pub open spec fn severity_row(label: Seq<char>, range: Seq<char>, count: usize, share: Seq<char>) -> Seq<char> {
    "| "@ + label + " | "@ + range + " | "@ + dec(count) + " | "@ + share + " |\n"@
}

pub open spec fn severity_section(s: DailyStats, sh: ReportShares) -> Seq<char> {
    "## Alert Statistics\n\n"@ + "### Severity Breakdown\n\n"@
        + "| Severity | Level Range | Count | Share |\n"@
        + "|----------|-------------|-------|-------|\n"@ + severity_row(
        "Critical"@,
        "≥12"@,
        s.critical,
        share_or_dash(s.total, sh.critical@),
    ) + severity_row("High"@, "8–11"@, s.high, share_or_dash(s.total, sh.high@)) + severity_row(
        "Medium"@,
        "4–7"@,
        s.medium,
        share_or_dash(s.total, sh.medium@),
    ) + severity_row("Low"@, "1–3"@, s.low, share_or_dash(s.total, sh.low@)) + "| **Total** | — | **"@
        + dec(s.total) + "** | 100% |\n\n"@
}

pub open spec fn agent_row(s: DailyStats, sh: ReportShares, i: int) -> Seq<char> {
    "| "@ + decimal((i + 1) as nat) + " | `"@ + s.top_agents@[i].0@ + "` | "@ + dec(s.top_agents@[i].1)
        + " | "@ + share_or_dash(s.total, sh.agents@[i]@) + " |\n"@
}

pub open spec fn agent_rows(s: DailyStats, sh: ReportShares, n: nat) -> Seq<char>
    decreases n,
{
    if n == 0 {
        Seq::empty()
    } else {
        agent_rows(s, sh, (n - 1) as nat) + agent_row(s, sh, n - 1)
    }
}

pub open spec fn infra_section(s: DailyStats, sh: ReportShares) -> Seq<char> {
    "---\n\n## Infrastructure Health\n\n"@ + "**"@ + dec(s.unique_agents)
        + " unique agent(s)** reported alerts during this period.\n\n"@ + (if s.top_agents@.len() > 0 {
        "### Top 10 Agents by Alert Volume\n\n"@ + "| # | Agent | Alerts | Share |\n"@
            + "|---|-------|--------|-------|\n"@ + agent_rows(s, sh, s.top_agents@.len()) + "\n"@
    } else {
        Seq::empty()
    })
}

pub open spec fn rule_row(s: DailyStats, i: int) -> Seq<char> {
    "| "@ + decimal((i + 1) as nat) + " | `"@ + s.top_rules@[i].0@ + "` | "@ + cell(s.top_rules@[i].1@)
        + " | "@ + dec(s.top_rules@[i].2) + " |\n"@
}

pub open spec fn rule_rows(s: DailyStats, n: nat) -> Seq<char>
    decreases n,
{
    if n == 0 {
        Seq::empty()
    } else {
        rule_rows(s, (n - 1) as nat) + rule_row(s, n - 1)
    }
}

pub open spec fn rules_section(s: DailyStats) -> Seq<char> {
    if s.top_rules@.len() > 0 {
        "---\n\n## Top Triggered Rules\n\n"@ + "| # | Rule ID | Description | Count |\n"@
            + "|---|---------|-------------|-------|\n"@ + rule_rows(s, s.top_rules@.len()) + "\n"@
    } else {
        Seq::empty()
    }
}

pub open spec fn mitre_row(s: DailyStats, i: int) -> Seq<char> {
    "| "@ + decimal((i + 1) as nat) + " | "@ + s.top_mitre@[i].0@ + " | "@ + dec(s.top_mitre@[i].1)
        + " |\n"@
}

pub open spec fn mitre_rows(s: DailyStats, n: nat) -> Seq<char>
    decreases n,
{
    if n == 0 {
        Seq::empty()
    } else {
        mitre_rows(s, (n - 1) as nat) + mitre_row(s, n - 1)
    }
}

pub open spec fn mitre_section(s: DailyStats) -> Seq<char> {
    if s.top_mitre@.len() > 0 {
        "---\n\n## MITRE ATT&CK Techniques Detected\n\n"@ + "| # | Technique | Event Count |\n"@
            + "|---|-----------|-------------|\n"@ + mitre_rows(s, s.top_mitre@.len()) + "\n"@
    } else {
        Seq::empty()
    }
}

pub open spec fn event_row(e: Entry) -> Seq<char> {
    "| "@ + e.timestamp@ + " | "@ + decimal(e.level as nat) + " | `"@ + e.agent@ + "` | "@ + e.rule_id@
        + " | "@ + cell(e.description@) + " |\n"@
}

pub open spec fn event_rows(es: Seq<Entry>, n: nat) -> Seq<char>
    decreases n,
{
    if n == 0 {
        Seq::empty()
    } else {
        event_rows(es, (n - 1) as nat) + event_row(es[n - 1])
    }
}

pub open spec fn events_section(s: DailyStats) -> Seq<char> {
    if s.top_entries@.len() > 0 {
        "---\n\n## Notable Events (Critical & High)\n\n"@
            + "| Timestamp | Level | Agent | Rule | Description |\n"@
            + "|-----------|-------|-------|------|-------------|\n"@ + event_rows(
            s.top_entries@,
            s.top_entries@.len(),
        ) + "\n"@
    } else {
        Seq::empty()
    }
}

pub open spec fn footer_section(date: Seq<char>, time: Seq<char>) -> Seq<char> {
    "---\n\n"@ + "*Generated by SOC Terminal on "@ + date + " at "@ + time + "*\n"@
}

/// The whole report.
pub open spec fn report_markdown(
    s: DailyStats,
    sh: ReportShares,
    summary: Seq<char>,
    date: Seq<char>,
    time: Seq<char>,
) -> Seq<char> {
    title_section(s, date, time) + summary_section(summary) + kpi_section(s, sh) + severity_section(
        s,
        sh,
    ) + infra_section(s, sh) + rules_section(s) + mitre_section(s) + events_section(s)
        + footer_section(date, time)
}

/// The difference of the totals as the report computes it fits an `i64`.
pub open spec fn trend_in_range(s: DailyStats) -> bool {
    i64::MIN <= (s.total as i64) as int - (s.prev_period_total as i64) as int <= i64::MAX
}

// ----------------------------------------------------------------------------
// Executable
// ----------------------------------------------------------------------------

fn push_dec(md: &mut String, n: usize)
    ensures
        final(md)@ == old(md)@ + dec(n),
{
    push_decimal(md, n as u128);
}

fn push_title(md: &mut String, s: &DailyStats, date: &str, time: &str)
    ensures
        final(md)@ == old(md)@ + title_section(*s, date@, time@),
{
    push_str(md, "# SOC Daily Activity Report — ");
    push_str(md, date);
    push_str(md, "\n\n");
    push_str(md, "| | |\n|---|---|\n");
    push_str(md, "| **Date** | ");
    push_str(md, date);
    push_str(md, " |\n");
    push_str(md, "| **Report period** | Last ");
    push_decimal(md, s.hours as u128);
    push_str(md, " hours |\n");
    push_str(md, "| **Data source** | `");
    push_str(md, s.index.as_str());
    push_str(md, "` |\n");
    push_str(md, "| **Generated** | ");
    push_str(md, date);
    push_str(md, " ");
    push_str(md, time);
    push_str(md, " |\n\n");
    push_str(md, "---\n\n");
    assert(md@ =~= old(md)@ + title_section(*s, date@, time@));
}

fn push_trend(md: &mut String, s: &DailyStats, pct: i64)
    requires
        trend_in_range(*s),
    ensures
        final(md)@ == old(md)@ + trend_text(*s, pct),
{
    if s.prev_period_total == 0 {
        push_str(md, "—");
    } else {
        let delta: i64 = (s.total as i64) - (s.prev_period_total as i64);
        if delta > 0 {
            push_str(md, "▲ ");
            push_signed(md, pct as i128);
            push_str(md, "% vs prev period (");
            push_dec(md, s.prev_period_total);
            push_str(md, " alerts)");
        } else if delta < 0 {
            push_str(md, "▼ ");
            push_signed(md, pct as i128);
            push_str(md, "% vs prev period (");
            push_dec(md, s.prev_period_total);
            push_str(md, " alerts)");
        } else {
            push_str(md, "= unchanged vs prev period (");
            push_dec(md, s.prev_period_total);
            push_str(md, " alerts)");
        }
    }
    assert(md@ =~= old(md)@ + trend_text(*s, pct));
}

fn push_kpi_head(md: &mut String, s: &DailyStats, sh: &ReportShares)
    requires
        trend_in_range(*s),
    ensures
        final(md)@ == old(md)@ + kpi_head(*s, *sh),
{
    push_str(md, "## KPIs\n\n");
    push_str(md, "| KPI | Value |\n|-----|-------|\n");
    push_str(md, "| Total alerts | **");
    push_dec(md, s.total);
    push_str(md, "** |\n");
    push_str(md, "| Alert trend | ");
    push_trend(md, s, sh.trend_pct);
    push_str(md, " |\n");
    assert(md@ =~= old(md)@ + kpi_head(*s, *sh));
}

fn push_kpi_counts(md: &mut String, s: &DailyStats)
    ensures
        final(md)@ == old(md)@ + kpi_counts(*s),
{
    push_str(md, "| Critical (≥12) | ");
    push_dec(md, s.critical);
    push_str(md, " |\n");
    push_str(md, "| High (8–11) | ");
    push_dec(md, s.high);
    push_str(md, " |\n");
    push_str(md, "| Medium (4–7) | ");
    push_dec(md, s.medium);
    push_str(md, " |\n");
    push_str(md, "| Low (1–3) | ");
    push_dec(md, s.low);
    push_str(md, " |\n");
    assert(md@ =~= old(md)@ + kpi_counts(*s));
}

fn push_kpi_tail(md: &mut String, s: &DailyStats, sh: &ReportShares)
    ensures
        final(md)@ == old(md)@ + kpi_tail(*s, *sh),
{
    push_str(md, "| Critical+High ratio | ");
    if s.total > 0 {
        push_str(md, sh.critical_high.as_str());
    } else {
        push_str(md, "N/A");
    }
    push_str(md, " |\n");
    push_str(md, "| Unique reporting agents | ");
    push_dec(md, s.unique_agents);
    push_str(md, " |\n\n");
    push_str(md, "---\n\n");
    assert(md@ =~= old(md)@ + kpi_tail(*s, *sh));
}

fn push_kpis(md: &mut String, s: &DailyStats, sh: &ReportShares)
    requires
        trend_in_range(*s),
    ensures
        final(md)@ == old(md)@ + kpi_section(*s, *sh),
{
    push_kpi_head(md, s, sh);
    push_kpi_counts(md, s);
    push_kpi_tail(md, s, sh);
    assert(md@ =~= old(md)@ + kpi_section(*s, *sh));
}

fn push_share(md: &mut String, total: usize, share: &String)
    ensures
        final(md)@ == old(md)@ + share_or_dash(total, share@),
{
    if total > 0 {
        push_str(md, share.as_str());
    } else {
        push_str(md, "—");
    }
}

fn push_severity_row(md: &mut String, label: &str, range: &str, count: usize, total: usize, share: &String)
    ensures
        final(md)@ == old(md)@ + severity_row(label@, range@, count, share_or_dash(total, share@)),
{
    push_str(md, "| ");
    push_str(md, label);
    push_str(md, " | ");
    push_str(md, range);
    push_str(md, " | ");
    push_dec(md, count);
    push_str(md, " | ");
    push_share(md, total, share);
    push_str(md, " |\n");
    assert(md@ =~= old(md)@ + severity_row(label@, range@, count, share_or_dash(total, share@)));
}

fn push_severity(md: &mut String, s: &DailyStats, sh: &ReportShares)
    ensures
        final(md)@ == old(md)@ + severity_section(*s, *sh),
{
    push_str(md, "## Alert Statistics\n\n");
    push_str(md, "### Severity Breakdown\n\n");
    push_str(md, "| Severity | Level Range | Count | Share |\n");
    push_str(md, "|----------|-------------|-------|-------|\n");
    push_severity_row(md, "Critical", "≥12", s.critical, s.total, &sh.critical);
    push_severity_row(md, "High", "8–11", s.high, s.total, &sh.high);
    push_severity_row(md, "Medium", "4–7", s.medium, s.total, &sh.medium);
    push_severity_row(md, "Low", "1–3", s.low, s.total, &sh.low);
    push_str(md, "| **Total** | — | **");
    push_dec(md, s.total);
    push_str(md, "** | 100% |\n\n");
    assert(md@ =~= old(md)@ + severity_section(*s, *sh));
}

fn push_infra(md: &mut String, s: &DailyStats, sh: &ReportShares)
    requires
        sh.agents@.len() == s.top_agents@.len(),
    ensures
        final(md)@ == old(md)@ + infra_section(*s, *sh),
{
    push_str(md, "---\n\n## Infrastructure Health\n\n");
    push_str(md, "**");
    push_dec(md, s.unique_agents);
    push_str(md, " unique agent(s)** reported alerts during this period.\n\n");
    let ghost head = md@;
    if s.top_agents.len() > 0 {
        push_str(md, "### Top 10 Agents by Alert Volume\n\n");
        push_str(md, "| # | Agent | Alerts | Share |\n");
        push_str(md, "|---|-------|--------|-------|\n");
        let ghost start = md@;
        let mut i: usize = 0;
        while i < s.top_agents.len()
            invariant
                i <= s.top_agents@.len(),
                sh.agents@.len() == s.top_agents@.len(),
                md@ == start + agent_rows(*s, *sh, i as nat),
            decreases s.top_agents@.len() - i,
        {
            let (name, count) = &s.top_agents[i];
            push_str(md, "| ");
            push_decimal(md, i as u128 + 1);
            push_str(md, " | `");
            push_str(md, name.as_str());
            push_str(md, "` | ");
            push_dec(md, *count);
            push_str(md, " | ");
            push_share(md, s.total, &sh.agents[i]);
            push_str(md, " |\n");
            assert(md@ =~= start + agent_rows(*s, *sh, (i + 1) as nat));
            i = i + 1;
        }
        push_str(md, "\n");
        assert(md@ =~= head + ("### Top 10 Agents by Alert Volume\n\n"@ + "| # | Agent | Alerts | Share |\n"@
            + "|---|-------|--------|-------|\n"@ + agent_rows(*s, *sh, s.top_agents@.len()) + "\n"@));
    } else {
        assert(md@ =~= head + Seq::<char>::empty());
    }
    assert(md@ =~= old(md)@ + infra_section(*s, *sh));
}

fn push_rules(md: &mut String, s: &DailyStats)
    ensures
        final(md)@ == old(md)@ + rules_section(*s),
{
    if s.top_rules.len() > 0 {
        push_str(md, "---\n\n## Top Triggered Rules\n\n");
        push_str(md, "| # | Rule ID | Description | Count |\n");
        push_str(md, "|---|---------|-------------|-------|\n");
        let ghost start = md@;
        let mut i: usize = 0;
        while i < s.top_rules.len()
            invariant
                i <= s.top_rules@.len(),
                md@ == start + rule_rows(*s, i as nat),
            decreases s.top_rules@.len() - i,
        {
            let (id, desc, count) = &s.top_rules[i];
            push_str(md, "| ");
            push_decimal(md, i as u128 + 1);
            push_str(md, " | `");
            push_str(md, id.as_str());
            push_str(md, "` | ");
            push_replaced(md, desc.as_str(), '|', "\\|");
            push_str(md, " | ");
            push_dec(md, *count);
            push_str(md, " |\n");
            assert(md@ =~= start + rule_rows(*s, (i + 1) as nat));
            i = i + 1;
        }
        push_str(md, "\n");
    }
    assert(md@ =~= old(md)@ + rules_section(*s));
}

fn push_mitre(md: &mut String, s: &DailyStats)
    ensures
        final(md)@ == old(md)@ + mitre_section(*s),
{
    if s.top_mitre.len() > 0 {
        push_str(md, "---\n\n## MITRE ATT&CK Techniques Detected\n\n");
        push_str(md, "| # | Technique | Event Count |\n");
        push_str(md, "|---|-----------|-------------|\n");
        let ghost start = md@;
        let mut i: usize = 0;
        while i < s.top_mitre.len()
            invariant
                i <= s.top_mitre@.len(),
                md@ == start + mitre_rows(*s, i as nat),
            decreases s.top_mitre@.len() - i,
        {
            let (technique, count) = &s.top_mitre[i];
            push_str(md, "| ");
            push_decimal(md, i as u128 + 1);
            push_str(md, " | ");
            push_str(md, technique.as_str());
            push_str(md, " | ");
            push_dec(md, *count);
            push_str(md, " |\n");
            assert(md@ =~= start + mitre_rows(*s, (i + 1) as nat));
            i = i + 1;
        }
        push_str(md, "\n");
    }
    assert(md@ =~= old(md)@ + mitre_section(*s));
}

fn push_event_row(md: &mut String, e: &Entry)
    ensures
        final(md)@ == old(md)@ + event_row(*e),
{
    push_str(md, "| ");
    push_str(md, e.timestamp.as_str());
    push_str(md, " | ");
    push_decimal(md, e.level as u128);
    push_str(md, " | `");
    push_str(md, e.agent.as_str());
    push_str(md, "` | ");
    push_str(md, e.rule_id.as_str());
    push_str(md, " | ");
    push_replaced(md, e.description.as_str(), '|', "\\|");
    push_str(md, " |\n");
    assert(md@ =~= old(md)@ + event_row(*e));
}

fn push_events(md: &mut String, s: &DailyStats)
    ensures
        final(md)@ == old(md)@ + events_section(*s),
{
    if s.top_entries.len() > 0 {
        push_str(md, "---\n\n## Notable Events (Critical & High)\n\n");
        push_str(md, "| Timestamp | Level | Agent | Rule | Description |\n");
        push_str(md, "|-----------|-------|-------|------|-------------|\n");
        let ghost start = md@;
        let mut i: usize = 0;
        while i < s.top_entries.len()
            invariant
                i <= s.top_entries@.len(),
                md@ == start + event_rows(s.top_entries@, i as nat),
            decreases s.top_entries@.len() - i,
        {
            push_event_row(md, &s.top_entries[i]);
            assert(md@ =~= start + event_rows(s.top_entries@, (i + 1) as nat));
            i = i + 1;
        }
        push_str(md, "\n");
    }
    assert(md@ =~= old(md)@ + events_section(*s));
}

fn push_summary(md: &mut String, summary: &str)
    ensures
        final(md)@ == old(md)@ + summary_section(summary@),
{
    push_str(md, "## Executive Summary\n\n");
    let t = trimmed(summary);
    push_str(md, t.as_str());
    push_str(md, "\n\n---\n\n");
    assert(md@ =~= old(md)@ + summary_section(summary@));
}

fn push_footer(md: &mut String, date: &str, time: &str)
    ensures
        final(md)@ == old(md)@ + footer_section(date@, time@),
{
    push_str(md, "---\n\n");
    push_str(md, "*Generated by SOC Terminal on ");
    push_str(md, date);
    push_str(md, " at ");
    push_str(md, time);
    push_str(md, "*\n");
    assert(md@ =~= old(md)@ + footer_section(date@, time@));
}

/// The markdown daily activity report for `s`, with the executive summary (trimmed),
/// the formatted percentages `sh`, and the date and time it was made.
pub fn build_markdown(s: &DailyStats, sh: &ReportShares, executive_summary: &str, date: &str, time: &str) -> (md: String)
    requires
        sh.agents@.len() == s.top_agents@.len(),
        trend_in_range(*s),
    ensures
        md@ == report_markdown(*s, *sh, executive_summary@, date@, time@),
{
    let mut md = String::new();
    push_title(&mut md, s, date, time);
    assert(md@ =~= title_section(*s, date@, time@));
    push_summary(&mut md, executive_summary);
    push_kpis(&mut md, s, sh);
    push_severity(&mut md, s, sh);
    push_infra(&mut md, s, sh);
    push_rules(&mut md, s);
    push_mitre(&mut md, s);
    push_events(&mut md, s);
    push_footer(&mut md, date, time);
    md
}

// ----------------------------------------------------------------------------
// Laws of the report
// ----------------------------------------------------------------------------

proof fn lemma_rule_rows_contain(s: DailyStats, n: nat, i: int)
    requires
        0 <= i < n,
    ensures
        contains(rule_rows(s, n), rule_row(s, i)),
        i + 1 < n ==> contains(rule_rows(s, n), rule_row(s, i) + rule_row(s, i + 1)),
    decreases n,
{
    let m = (n - 1) as nat;
    if i == n - 1 {
        lemma_contains_self(rule_row(s, i));
        lemma_contains_right(rule_rows(s, m), rule_row(s, i), rule_row(s, i));
    } else {
        lemma_rule_rows_contain(s, m, i);
        lemma_contains_left(rule_rows(s, m), rule_row(s, n - 1), rule_row(s, i));
        let pair = rule_row(s, i) + rule_row(s, i + 1);
        if i + 1 < n - 1 {
            lemma_contains_left(rule_rows(s, m), rule_row(s, n - 1), pair);
        } else {
            let k = (m - 1) as nat;
            assert(rule_rows(s, n) =~= rule_rows(s, k) + pair);
            lemma_contains_self(pair);
            lemma_contains_right(rule_rows(s, k), pair, pair);
        }
    }
}

proof fn lemma_event_rows_contain(es: Seq<Entry>, n: nat, i: int)
    requires
        0 <= i < n,
    ensures
        contains(event_rows(es, n), event_row(es[i])),
        i + 1 < n ==> contains(event_rows(es, n), event_row(es[i]) + event_row(es[i + 1])),
    decreases n,
{
    let m = (n - 1) as nat;
    if i == n - 1 {
        lemma_contains_self(event_row(es[i]));
        lemma_contains_right(event_rows(es, m), event_row(es[i]), event_row(es[i]));
    } else {
        lemma_event_rows_contain(es, m, i);
        lemma_contains_left(event_rows(es, m), event_row(es[n - 1]), event_row(es[i]));
        let pair = event_row(es[i]) + event_row(es[i + 1]);
        if i + 1 < n - 1 {
            lemma_contains_left(event_rows(es, m), event_row(es[n - 1]), pair);
        } else {
            let k = (m - 1) as nat;
            assert(event_rows(es, n) =~= event_rows(es, k) + pair);
            lemma_contains_self(pair);
            lemma_contains_right(event_rows(es, k), pair, pair);
        }
    }
}

/// The row of the `i`-th top rule, ranked `i + 1`.
pub open spec fn rule_line(s: DailyStats, i: int) -> Seq<char> {
    "| "@ + decimal((i + 1) as nat) + " | `"@ + s.top_rules@[i].0@ + "` | "@ + replace_char(
        s.top_rules@[i].1@,
        '|',
        "\\|"@,
    ) + " | "@ + decimal(s.top_rules@[i].2 as nat) + " |\n"@
}

/// The row of a notable event.
pub open spec fn event_line(e: Entry) -> Seq<char> {
    "| "@ + e.timestamp@ + " | "@ + decimal(e.level as nat) + " | `"@ + e.agent@ + "` | "@
        + e.rule_id@ + " | "@ + replace_char(e.description@, '|', "\\|"@) + " |\n"@
}

/// Every top rule reaches the report: for each entry of `top_rules`, the report holds
/// its row ranked `i + 1` (`| i+1 | `id` | description | count |`), with the next
/// rule's row right after it, so the table lists all of them, in order.
pub proof fn lemma_report_has_every_rule(
    s: DailyStats,
    sh: ReportShares,
    summary: Seq<char>,
    date: Seq<char>,
    time: Seq<char>,
    i: int,
)
    requires
        0 <= i < s.top_rules@.len(),
    ensures
        contains(report_markdown(s, sh, summary, date, time), rule_line(s, i)),
        i + 1 < s.top_rules@.len() ==> contains(
            report_markdown(s, sh, summary, date, time),
            rule_line(s, i) + rule_line(s, i + 1),
        ),
{
    let n = s.top_rules@.len();
    let h = "---\n\n## Top Triggered Rules\n\n"@ + "| # | Rule ID | Description | Count |\n"@
        + "|---|---------|-------------|-------|\n"@;
    let rows = rule_rows(s, n);
    let pre = title_section(s, date, time) + summary_section(summary) + kpi_section(s, sh)
        + severity_section(s, sh) + infra_section(s, sh);
    let m = mitre_section(s);
    let e = events_section(s);
    let f = footer_section(date, time);
    assert(rules_section(s) == h + rows + "\n"@);
    assert(rule_line(s, i) == rule_row(s, i));
    lemma_rule_rows_contain(s, n, i);
    lift_rule(h, rows, pre, m, e, f, rule_row(s, i));
    if i + 1 < n {
        assert(rule_line(s, i + 1) == rule_row(s, i + 1));
        lift_rule(h, rows, pre, m, e, f, rule_row(s, i) + rule_row(s, i + 1));
    }
}

proof fn lift_rule(
    h: Seq<char>,
    rows: Seq<char>,
    pre: Seq<char>,
    m: Seq<char>,
    e: Seq<char>,
    f: Seq<char>,
    x: Seq<char>,
)
    requires
        contains(rows, x),
    ensures
        contains(pre + (h + rows + "\n"@) + m + e + f, x),
{
    lemma_contains_right(h, rows, x);
    lemma_contains_left(h + rows, "\n"@, x);
    lemma_contains_right(pre, h + rows + "\n"@, x);
    lemma_contains_left(pre + (h + rows + "\n"@), m, x);
    lemma_contains_left(pre + (h + rows + "\n"@) + m, e, x);
    lemma_contains_left(pre + (h + rows + "\n"@) + m + e, f, x);
}

/// Every notable event reaches the report: for each entry of `top_entries`, the report
/// holds its row (`| time | level | `agent` | rule | description |`), with the next
/// event's row right after it, so the table lists all of them, in order.
pub proof fn lemma_report_has_every_event(
    s: DailyStats,
    sh: ReportShares,
    summary: Seq<char>,
    date: Seq<char>,
    time: Seq<char>,
    i: int,
)
    requires
        0 <= i < s.top_entries@.len(),
    ensures
        contains(report_markdown(s, sh, summary, date, time), event_line(s.top_entries@[i])),
        i + 1 < s.top_entries@.len() ==> contains(
            report_markdown(s, sh, summary, date, time),
            event_line(s.top_entries@[i]) + event_line(s.top_entries@[i + 1]),
        ),
{
    let es = s.top_entries@;
    let n = es.len();
    let h = "---\n\n## Notable Events (Critical & High)\n\n"@
        + "| Timestamp | Level | Agent | Rule | Description |\n"@
        + "|-----------|-------|-------|------|-------------|\n"@;
    let rows = event_rows(es, n);
    let pre = title_section(s, date, time) + summary_section(summary) + kpi_section(s, sh)
        + severity_section(s, sh) + infra_section(s, sh) + rules_section(s) + mitre_section(s);
    let f = footer_section(date, time);
    assert(events_section(s) == h + rows + "\n"@);
    assert(event_line(es[i]) == event_row(es[i]));
    lemma_event_rows_contain(es, n, i);
    lift_event(h, rows, pre, f, event_row(es[i]));
    if i + 1 < n {
        assert(event_line(es[i + 1]) == event_row(es[i + 1]));
        lift_event(h, rows, pre, f, event_row(es[i]) + event_row(es[i + 1]));
    }
}

proof fn lift_event(h: Seq<char>, rows: Seq<char>, pre: Seq<char>, f: Seq<char>, x: Seq<char>)
    requires
        contains(rows, x),
    ensures
        contains(pre + (h + rows + "\n"@) + f, x),
{
    lemma_contains_right(h, rows, x);
    lemma_contains_left(h + rows, "\n"@, x);
    lemma_contains_right(pre, h + rows + "\n"@, x);
    lemma_contains_left(pre + (h + rows + "\n"@), f, x);
}

} // verus!
