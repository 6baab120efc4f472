//! The alert data the terminal works on: entries as the table shows them,
//! search filters and the queries they make, and the figures of a daily report.
use vstd::prelude::*;
use crate::text::{
    decimal, owned, push_decimal, push_str, replace_char, replaced, first_chars, starts_with,
    take_chars, has_prefix, chars_of, same, views,
};

verus! {

broadcast use vstd::string::group_string_axioms;

/// One alert, as the entry table and the prompts read it.
#[derive(Debug, Clone)]
pub struct Entry {
    pub id: String,
    /// `YYYY-MM-DD hh:mm:ss`: the first 19 characters of the alert's timestamp, `T` as a space.
    pub timestamp: String,
    pub level: u8,
    pub agent: String,
    pub rule_id: String,
    pub description: String,
    /// The whole search hit, as JSON text.
    pub raw: String,
    /// `_source.full_log`, when it is a string.
    pub full_log: Option<String>,
    /// The string items of `_source.rule.mitre.technique`.
    pub mitre_techniques: Vec<String>,
    /// The string items of `_source.rule.mitre.id`.
    pub mitre_ids: Vec<String>,
    /// `_source.ai_analysis`, when it has a `reasoning` string.
    pub ai_note: Option<AiNote>,
}

/// An analysis note attached to an alert by an upstream classifier.
#[derive(Debug, Clone)]
pub struct AiNote {
    pub reasoning: String,
    /// The confidence as a whole percentage, already formatted (e.g. `"87"`).
    pub confidence_pct: String,
}

/// How a search hit gives the id of its rule.
#[derive(Debug, Clone)]
pub enum RuleKey {
    Text(String),
    /// A numeric id, already printed in decimal.
    Number(String),
    Missing,
}

/// The fields of one search hit that an [`Entry`] is made from; each is `None`
/// when the hit does not hold it with the expected type.
#[derive(Debug, Clone)]
pub struct Hit {
    /// `_id`
    pub id: Option<String>,
    /// `_source["@timestamp"]`
    pub timestamp: Option<String>,
    /// `_source.timestamp`
    pub timestamp_alt: Option<String>,
    /// `_source.rule.level`
    pub level: Option<u64>,
    /// `_source.rule_level`
    pub level_alt: Option<u64>,
    /// `_source.agent.name`
    pub agent_name: Option<String>,
    /// `_source.host`
    pub host: Option<String>,
    /// `_source.rule.id`
    pub rule_id: RuleKey,
    /// `_source.rule.description`
    pub description: Option<String>,
    /// `_source.rule_description`
    pub description_alt: Option<String>,
    pub raw: String,
    pub full_log: Option<String>,
    pub mitre_techniques: Vec<String>,
    pub mitre_ids: Vec<String>,
    pub ai_note: Option<AiNote>,
}

/// Filters for the entry search.
#[derive(Debug, Default, Clone)]
pub struct Filters {
    pub min_level: u8,
    pub agent: Option<String>,
    pub hours: Option<u32>,
}

/// Aggregated figures for the daily report.
#[derive(Debug, Clone)]
pub struct DailyStats {
    pub index: String,
    pub hours: u32,
    pub total: usize,
    /// The total of the window of the same length just before.
    pub prev_period_total: usize,
    /// Level 12 and above.
    pub critical: usize,
    /// Levels 8 to 11.
    pub high: usize,
    /// Levels 4 to 7.
    pub medium: usize,
    /// Levels 1 to 3.
    pub low: usize,
    pub unique_agents: usize,
    /// `(agent name, alert count)`
    pub top_agents: Vec<(String, usize)>,
    /// `(rule id, description, alert count)`
    pub top_rules: Vec<(String, String, usize)>,
    /// `(technique, alert count)`
    pub top_mitre: Vec<(String, usize)>,
    /// The most severe recent alerts.
    pub top_entries: Vec<Entry>,
}

/// One condition of an entry search.
#[derive(Debug, Clone)]
pub enum Clause {
    /// `rule.level >= n`
    LevelAtLeast(u8),
    /// `agent.name` matches this wildcard pattern.
    AgentLike(String),
    /// `@timestamp >= ` this date-math expression.
    Since(String),
}

/// The query part of an entry search.
#[derive(Debug, Clone)]
pub enum Query {
    MatchAll,
    All(Vec<Clause>),
}

/// Counts per severity bucket of the daily report aggregation.
#[derive(Debug, Clone, Copy, PartialEq, Eq)]
pub struct SeverityCounts {
    pub critical: usize,
    pub high: usize,
    pub medium: usize,
    pub low: usize,
}

/// One severity band of the report aggregation: levels from `from` up to, not
/// including, `to` (no upper end when `to` is `None`), counted under `key`.
#[derive(Debug, Clone)]
pub struct SeverityBand {
    pub key: String,
    pub from: u8,
    pub to: Option<u8>,
}

/// The aggregation search of the daily report: alerts since `since`, counted per
/// severity band, with the `top` most frequent agents, rules and techniques.
#[derive(Debug, Clone)]
pub struct StatsRequest {
    pub since: String,
    pub bands: Vec<SeverityBand>,
    pub top: usize,
}

/// How many agents, rules and techniques the report ranks.
pub const TOP_BUCKETS: usize = 10;

/// How many of the most severe recent alerts the report lists.
pub const NOTABLE_EVENTS: usize = 20;

// ----------------------------------------------------------------------------
// Specifications
// ----------------------------------------------------------------------------

/// The first of `a`, `b` that is present, else `d`.
pub open spec fn first_present(a: Option<String>, b: Option<String>, d: Seq<char>) -> Seq<char> {
    match a {
        Some(s) => s@,
        None => match b {
            Some(t) => t@,
            None => d,
        },
    }
}

/// The table timestamp made of a raw one: its first 19 characters, `T` as a space.
pub open spec fn table_timestamp(raw: Seq<char>) -> Seq<char> {
    replace_char(take_chars(raw, 19), 'T', " "@)
}

pub open spec fn rule_key_text(k: RuleKey) -> Seq<char> {
    match k {
        RuleKey::Text(s) => s@,
        RuleKey::Number(n) => n@,
        RuleKey::Missing => Seq::empty(),
    }
}

/// The entry made of a hit's fields.
pub open spec fn entry_matches_hit(e: Entry, h: Hit) -> bool {
    &&& e.id@ == first_present(h.id, None, Seq::empty())
    &&& e.timestamp@ == table_timestamp(first_present(h.timestamp, h.timestamp_alt, Seq::empty()))
    &&& e.level == (match h.level {
        Some(l) => l,
        None => match h.level_alt {
            Some(l) => l,
            None => 0,
        },
    }) as u8
    &&& e.agent@ == first_present(h.agent_name, h.host, "?"@)
    &&& e.rule_id@ == rule_key_text(h.rule_id)
    &&& e.description@ == first_present(h.description, h.description_alt, Seq::empty())
    &&& e.raw == h.raw
    &&& e.full_log == h.full_log
    &&& e.mitre_techniques == h.mitre_techniques
    &&& e.mitre_ids == h.mitre_ids
    &&& e.ai_note == h.ai_note
}

/// The date-math expression for "`hours` hours ago".
pub open spec fn hours_ago_spec(hours: nat) -> Seq<char> {
    "now-"@ + decimal(hours) + "h"@
}

/// `c` is the clause of kind `which` (0: level, 1: agent, 2: time) that `f` asks for, its text included.
pub open spec fn clause_matches(c: Clause, f: Filters, which: int) -> bool {
    match c {
        Clause::LevelAtLeast(n) => which == 0 && n == f.min_level && f.min_level > 1,
        Clause::AgentLike(p) => which == 1 && f.agent is Some && p@ == "*"@ + f.agent->0@ + "*"@,
        Clause::Since(s) => which == 2 && f.hours is Some && s@ == hours_ago_spec(
            f.hours->0 as nat,
        ),
    }
}

/// The kinds of clauses (0: level, 1: agent, 2: time) a search with `f` holds, in order.
pub open spec fn clause_kinds(f: Filters) -> Seq<int> {
    (if f.min_level > 1 {
        seq![0int]
    } else {
        Seq::empty()
    }) + (if f.agent is Some {
        seq![1int]
    } else {
        Seq::empty()
    }) + (if f.hours is Some {
        seq![2int]
    } else {
        Seq::empty()
    })
}

/// The query a search with `f` sends: all its clauses, or everything when it has none.
pub open spec fn query_matches(q: Query, f: Filters) -> bool {
    let kinds = clause_kinds(f);
    match q {
        Query::MatchAll => kinds.len() == 0,
        Query::All(cs) => kinds.len() > 0 && cs@.len() == kinds.len() && forall|i: int|
            0 <= i < kinds.len() ==> clause_matches(#[trigger] cs@[i], f, kinds[i]),
    }
}

/// Severity counts after the buckets `bs` are read in order; a later bucket
/// with the same key overrides an earlier one, unknown keys are ignored.
pub open spec fn tally(bs: Seq<(String, usize)>) -> SeverityCounts
    decreases bs.len(),
{
    if bs.len() == 0 {
        SeverityCounts { critical: 0, high: 0, medium: 0, low: 0 }
    } else {
        let t = tally(bs.drop_last());
        let (k, n) = bs.last();
        if k@ == "critical"@ {
            SeverityCounts { critical: n, ..t }
        } else if k@ == "high"@ {
            SeverityCounts { high: n, ..t }
        } else if k@ == "medium"@ {
            SeverityCounts { medium: n, ..t }
        } else if k@ == "low"@ {
            SeverityCounts { low: n, ..t }
        } else {
            t
        }
    }
}

/// Lexicographic order on strings by character (the order of `String`'s `Ord`,
/// since UTF-8 preserves the order of code points).
pub open spec fn lex_le(a: Seq<char>, b: Seq<char>) -> bool
    decreases a.len(),
{
    if a.len() == 0 {
        true
    } else if b.len() == 0 {
        false
    } else if a[0] != b[0] {
        a[0] < b[0]
    } else {
        lex_le(a.drop_first(), b.drop_first())
    }
}

/// The index names the picker lists: those that do not start with `.`.
pub open spec fn is_listed_index(name: Seq<char>) -> bool {
    !starts_with(name, "."@)
}

/// The names of `v` that the picker lists, in order.
pub open spec fn listed(v: Seq<Seq<char>>) -> Seq<Seq<char>>
    decreases v.len(),
{
    if v.len() == 0 {
        Seq::empty()
    } else if is_listed_index(v.last()) {
        listed(v.drop_last()).push(v.last())
    } else {
        listed(v.drop_last())
    }
}

/// `v` is in descending order.
pub open spec fn descending(v: Seq<Seq<char>>) -> bool {
    forall|i: int, j: int| 0 <= i < j < v.len() ==> lex_le(#[trigger] v[j], #[trigger] v[i])
}

// ----------------------------------------------------------------------------
// Lemmas on the order
// ----------------------------------------------------------------------------

/// Any two names are ordered one way or the other.
pub proof fn lemma_lex_total(a: Seq<char>, b: Seq<char>)
    ensures
        lex_le(a, b) || lex_le(b, a),
    decreases a.len(),
{
    if a.len() > 0 && b.len() > 0 && a[0] == b[0] {
        lemma_lex_total(a.drop_first(), b.drop_first());
    }
}

/// The order of names is transitive.
pub proof fn lemma_lex_trans(a: Seq<char>, b: Seq<char>, c: Seq<char>)
    requires
        lex_le(a, b),
        lex_le(b, c),
    ensures
        lex_le(a, c),
    decreases a.len(),
{
    if a.len() > 0 && b.len() > 0 && c.len() > 0 && a[0] == b[0] && b[0] == c[0] {
        lemma_lex_trans(a.drop_first(), b.drop_first(), c.drop_first());
    }
}

/// Names ordered both ways are equal.
pub proof fn lemma_lex_antisym(a: Seq<char>, b: Seq<char>)
    requires
        lex_le(a, b),
        lex_le(b, a),
    ensures
        a == b,
    decreases a.len(),
{
    if a.len() > 0 && b.len() > 0 {
        if a[0] == b[0] {
            lemma_lex_antisym(a.drop_first(), b.drop_first());
            assert(a =~= seq![a[0]] + a.drop_first());
            assert(b =~= seq![b[0]] + b.drop_first());
        }
    } else if a.len() == 0 && b.len() == 0 {
        assert(a =~= b);
    }
}

// ----------------------------------------------------------------------------
// Executable
// ----------------------------------------------------------------------------

fn first_of(a: &Option<String>, b: &Option<String>, d: &str) -> (r: String)
    ensures
        r@ == first_present(*a, *b, d@),
{
    match a {
        Some(s) => s.clone(),
        None => match b {
            Some(t) => t.clone(),
            None => owned(d),
        },
    }
}

impl Entry {
    /// The entry the table shows for a search hit.
    pub fn from_hit(h: Hit) -> (e: Entry)
        ensures
            entry_matches_hit(e, h),
    {
        let none: Option<String> = None;
        proof {
            reveal_strlit("");
            assert(""@ =~= Seq::<char>::empty());
        }
        let ts_raw = first_of(&h.timestamp, &h.timestamp_alt, "");
        let ts = replaced(first_chars(ts_raw.as_str(), 19).as_str(), 'T', " ");
        let level: u64 = match h.level {
            Some(l) => l,
            None => match h.level_alt {
                Some(l) => l,
                None => 0,
            },
        };
        let rule_id = match &h.rule_id {
            RuleKey::Text(s) => s.clone(),
            RuleKey::Number(n) => n.clone(),
            RuleKey::Missing => String::new(),
        };
        let id = first_of(&h.id, &none, "");
        let agent = first_of(&h.agent_name, &h.host, "?");
        let description = first_of(&h.description, &h.description_alt, "");
        let e = Entry {
            id,
            timestamp: ts,
            level: level as u8,
            agent,
            rule_id,
            description,
            raw: h.raw,
            full_log: h.full_log,
            mitre_techniques: h.mitre_techniques,
            mitre_ids: h.mitre_ids,
            ai_note: h.ai_note,
        };
        assert(e.id@ == first_present(h.id, None, Seq::empty()));
        assert(e.timestamp@ == table_timestamp(first_present(h.timestamp, h.timestamp_alt, Seq::empty())));
        assert(e.agent@ == first_present(h.agent_name, h.host, "?"@));
        assert(e.rule_id@ == rule_key_text(h.rule_id));
        e
    }
}

/// The date-math expression for "`hours` hours ago" (`now-{hours}h`).
pub fn hours_ago(hours: u32) -> (s: String)
    ensures
        s@ == hours_ago_spec(hours as nat),
{
    let mut s = owned("now-");
    push_decimal(&mut s, hours as u128);
    push_str(&mut s, "h");
    s
}

/// The query of an entry search with filters `f`: a level bound when it is above 1,
/// an agent wildcard `*agent*`, and a time bound, in that order; everything when none applies.
pub fn search_query(f: &Filters) -> (q: Query)
    ensures
        query_matches(q, *f),
        f.min_level > 1 ==> (q matches Query::All(cs) && cs@.len() >= 1 && cs@[0]
            == Clause::LevelAtLeast(f.min_level)),
        q matches Query::All(cs) ==> forall|i: int|
            0 <= i < cs@.len() && (#[trigger] cs@[i]) is LevelAtLeast ==> i == 0 && f.min_level > 1
                && cs@[i] == Clause::LevelAtLeast(f.min_level),
{
    let mut cs: Vec<Clause> = Vec::new();
    let ghost mut kinds: Seq<int> = Seq::empty();
    if f.min_level > 1 {
        cs.push(Clause::LevelAtLeast(f.min_level));
        proof {
            kinds = kinds.push(0);
        }
    }
    match &f.agent {
        Some(a) => {
            let mut p = owned("*");
            push_str(&mut p, a.as_str());
            push_str(&mut p, "*");
            cs.push(Clause::AgentLike(p));
            proof {
                kinds = kinds.push(1);
            }
        },
        None => {},
    }
    match f.hours {
        Some(h) => {
            cs.push(Clause::Since(hours_ago(h)));
            proof {
                kinds = kinds.push(2);
            }
        },
        None => {},
    }
    proof {
        assert(kinds =~= clause_kinds(*f));
    }
    let q = if cs.len() == 0 {
        Query::MatchAll
    } else {
        Query::All(cs)
    };
    proof {
        lemma_search_level_clause(*f, q);
    }
    q
}

/// The level clause of a search bounds `rule.level` by the filter's own minimum: a
/// search with a minimum above 1 starts with `rule.level >= min_level`, and no search
/// holds a level clause anywhere else, with another bound, or for a minimum of 1 or less.
pub proof fn lemma_search_level_clause(f: Filters, q: Query)
    requires
        query_matches(q, f),
    ensures
        f.min_level > 1 ==> (q matches Query::All(cs) && cs@.len() >= 1 && cs@[0]
            == Clause::LevelAtLeast(f.min_level)),
        q matches Query::All(cs) ==> forall|i: int|
            0 <= i < cs@.len() && (#[trigger] cs@[i]) is LevelAtLeast ==> i == 0 && f.min_level > 1
                && cs@[i] == Clause::LevelAtLeast(f.min_level),
{
    let kinds = clause_kinds(f);
    if f.min_level > 1 {
        assert(kinds[0] == 0);
    }
    match q {
        Query::All(cs) => {
            assert forall|i: int|
                0 <= i < cs@.len() && (#[trigger] cs@[i]) is LevelAtLeast implies i == 0
                    && f.min_level > 1 && cs@[i] == Clause::LevelAtLeast(f.min_level) by {
                assert(clause_matches(cs@[i], f, kinds[i]));
                assert(kinds[i] == 0);
                if i > 0 {
                    assert(kinds[i] != 0);
                }
            }
            if f.min_level > 1 {
                assert(clause_matches(cs@[0], f, kinds[0]));
            }
        },
        Query::MatchAll => {},
    }
}

fn key_is(k: &String, lit: &str) -> (r: bool)
    ensures
        r == (k@ == lit@),
{
    same(k.as_str(), lit)
}

/// Reads the severity buckets of the report aggregation: each known key
/// (`critical`, `high`, `medium`, `low`) sets its count, the last one winning.
pub fn tally_severity(buckets: &Vec<(String, usize)>) -> (t: SeverityCounts)
    ensures
        t == tally(buckets@),
{
    let mut t = SeverityCounts { critical: 0, high: 0, medium: 0, low: 0 };
    let mut i: usize = 0;
    while i < buckets.len()
        invariant
            i <= buckets.len(),
            t == tally(buckets@.take(i as int)),
        decreases buckets.len() - i,
    {
        let (k, n) = &buckets[i];
        if key_is(k, "critical") {
            t.critical = *n;
        } else if key_is(k, "high") {
            t.high = *n;
        } else if key_is(k, "medium") {
            t.medium = *n;
        } else if key_is(k, "low") {
            t.low = *n;
        }
        proof {
            assert(buckets@.take(i + 1).drop_last() =~= buckets@.take(i as int));
        }
        i = i + 1;
    }
    assert(buckets@.take(buckets.len() as int) =~= buckets@);
    t
}

/// The windows of the report's trend: from `2 * hours` to `hours` hours ago.
pub fn previous_window(hours: u32) -> (w: (u32, u32))
    requires
        hours * 2 <= u32::MAX,
    ensures
        w.0 == hours * 2,
        w.1 == hours,
{
    (hours * 2, hours)
}

/// The filters of the report's notable events: level 8 and above, in the last `hours`.
pub fn notable_filters(hours: u32) -> (f: Filters)
    ensures
        f.min_level == 8,
        f.agent is None,
        f.hours == Some(hours),
{
    Filters { min_level: 8, agent: None, hours: Some(hours) }
}

/// `a <= b` in the order of [`lex_le`].
pub fn lex_le_exec(a: &str, b: &str) -> (r: bool)
    ensures
        r == lex_le(a@, b@),
{
    let x = chars_of(a);
    let y = chars_of(b);
    let mut i: usize = 0;
    assert(x@.skip(0) =~= x@);
    assert(y@.skip(0) =~= y@);
    assert(x@.take(0) =~= y@.take(0));
    while i < x.len() && i < y.len() && x[i] == y[i]
        invariant
            x@ == a@,
            y@ == b@,
            i <= x.len(),
            i <= y.len(),
            x@.take(i as int) == y@.take(i as int),
            lex_le(a@, b@) == lex_le(x@.skip(i as int), y@.skip(i as int)),
        decreases x.len() - i,
    {
        proof {
            let xs = x@.skip(i as int);
            let ys = y@.skip(i as int);
            assert(xs.drop_first() =~= x@.skip(i + 1));
            assert(ys.drop_first() =~= y@.skip(i + 1));
            assert(x@.take(i + 1) =~= x@.take(i as int).push(x@[i as int]));
            assert(y@.take(i + 1) =~= y@.take(i as int).push(y@[i as int]));
        }
        i = i + 1;
    }
    proof {
        let xs = x@.skip(i as int);
        let ys = y@.skip(i as int);
        if i < x.len() && i < y.len() {
            assert(xs[0] == x@[i as int]);
            assert(ys[0] == y@[i as int]);
        }
    }
    if i == x.len() {
        true
    } else if i == y.len() {
        false
    } else {
        x[i] < y[i]
    }
}

/// The index names the picker lists: those not starting with `.`, in
/// descending order.
pub fn visible_indices(all: Vec<String>) -> (r: Vec<String>)
    ensures
        views(r@).to_multiset() == listed(views(all@)).to_multiset(),
        descending(views(r@)),
{
    let mut out: Vec<String> = Vec::new();
    let mut i: usize = 0;
    proof {
        assert(views(out@) =~= Seq::<Seq<char>>::empty());
        assert(views(all@.take(0)) =~= Seq::<Seq<char>>::empty());
        assert(listed(views(all@.take(0))) =~= Seq::<Seq<char>>::empty());
    }
    while i < all.len()
        invariant
            i <= all.len(),
            views(out@).to_multiset() == listed(views(all@.take(i as int))).to_multiset(),
            descending(views(out@)),
        decreases all.len() - i,
    {
        let name = &all[i];
        proof {
            let pre = views(all@.take(i as int));
            let now = views(all@.take(i + 1));
            assert(now =~= pre.push(name@));
            assert(now.drop_last() =~= pre);
        }
        if !has_prefix(name.as_str(), ".") {
            // Insert after every name that is strictly greater.
            let mut j: usize = 0;
            while j < out.len() && !lex_le_exec(out[j].as_str(), name.as_str())
                invariant
                    j <= out.len(),
                    forall|k: int| 0 <= k < j ==> !lex_le(#[trigger] views(out@)[k], name@),
                decreases out.len() - j,
            {
                j = j + 1;
            }
            let ghost before = views(out@);
            out.insert(j, name.clone());
            proof {
                let after = views(out@);
                assert(after =~= before.insert(j as int, name@));
                vstd::seq_lib::to_multiset_insert(before, j as int, name@);
                let now = views(all@.take(i + 1));
                assert(listed(now) =~= listed(views(all@.take(i as int))).push(name@));
                vstd::seq_lib::to_multiset_build(listed(views(all@.take(i as int))), name@);
                assert forall|a: int, b: int| 0 <= a < b < after.len() implies lex_le(
                    #[trigger] after[b],
                    #[trigger] after[a],
                ) by {
                    if b < j {
                        assert(after[a] == before[a] && after[b] == before[b]);
                    } else if b == j {
                        assert(after[a] == before[a]);
                        assert(!lex_le(before[a], name@));
                        lemma_lex_total(before[a], name@);
                    } else if a == j {
                        assert(after[b] == before[b - 1]);
                        if j < before.len() {
                            // before[j] <= name, and before is descending from j on.
                            assert(lex_le(before[j as int], name@));
                            if b - 1 > j {
                                assert(lex_le(before[b - 1], before[j as int]));
                                lemma_lex_trans(before[b - 1], before[j as int], name@);
                            }
                        }
                    } else if a < j {
                        assert(after[a] == before[a] && after[b] == before[b - 1]);
                    } else {
                        assert(after[a] == before[a - 1] && after[b] == before[b - 1]);
                    }
                }
            }
        }
        i = i + 1;
    }
    assert(all@.take(all.len() as int) =~= all@);
    out
}

/// The band `key` from `from` to `to`.
pub open spec fn band_is(b: SeverityBand, key: Seq<char>, from: u8, to: Option<u8>) -> bool {
    b.key@ == key && b.from == from && b.to == to
}

fn band(key: &str, from: u8, to: Option<u8>) -> (b: SeverityBand)
    ensures
        band_is(b, key@, from, to),
{
    SeverityBand { key: owned(key), from, to }
}

/// The aggregation search of the report on the last `hours` hours: the bands `low`
/// (levels 1 to 3), `medium` (4 to 7), `high` (8 to 11) and `critical` (12 and
/// above), and the ten most frequent agents, rules and techniques.
pub fn stats_request(hours: u32) -> (r: StatsRequest)
    ensures
        r.since@ == hours_ago_spec(hours as nat),
        r.bands@.len() == 4,
        band_is(r.bands@[0], "low"@, 1, Some(4u8)),
        band_is(r.bands@[1], "medium"@, 4, Some(8u8)),
        band_is(r.bands@[2], "high"@, 8, Some(12u8)),
        band_is(r.bands@[3], "critical"@, 12, None),
        r.top == TOP_BUCKETS,
{
    let mut bands: Vec<SeverityBand> = Vec::new();
    bands.push(band("low", 1, Some(4)));
    bands.push(band("medium", 4, Some(8)));
    bands.push(band("high", 8, Some(12)));
    bands.push(band("critical", 12, None));
    StatsRequest { since: hours_ago(hours), bands, top: TOP_BUCKETS }
}

/// The message of a search that the server refused: its reason, or `unknown`.
pub fn search_error_message(reason: &Option<String>) -> (m: String)
    ensures
        m@ == "OpenSearch error: "@ + match reason {
            Some(r) => r@,
            None => "unknown"@,
        },
{
    let mut m = owned("OpenSearch error: ");
    match reason {
        Some(r) => push_str(&mut m, r.as_str()),
        None => push_str(&mut m, "unknown"),
    }
    m
}

/// A count read from a response: the number when there is one (as a `usize`), else 0.
pub fn count_or_zero(n: Option<u64>) -> (c: usize)
    ensures
        c == match n {
            Some(v) => v as usize,
            None => 0usize,
        },
{
    match n {
        Some(v) => v as usize,
        None => 0,
    }
}

} // verus!
