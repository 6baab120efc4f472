//! Starting the work that runs in the background: what is asked for, and what
//! the state shows meanwhile.
use vstd::prelude::*;
use crate::alerts::{AiNote, Entry, Filters};
use crate::app::{selected_of, App};
use crate::llm::{report_header, report_stream_header};
use crate::messages::AppMessage;
use crate::text::{decimal, owned, push_decimal, push_str, views, opt_view};

verus! {

broadcast use vstd::string::group_string_axioms;

/// A search for one page of entries.
#[derive(Debug, Clone)]
pub struct LoadRequest {
    pub index: String,
    pub filters: Filters,
    pub size: usize,
    pub from: usize,
}

/// An analysis of the selected entries by a language model.
#[derive(Debug, Clone)]
pub struct AnalyseRequest {
    pub entries: Vec<Entry>,
    /// The model tag to use.
    pub provider: String,
}

/// A daily activity report.
#[derive(Debug, Clone)]
pub struct ReportRequest {
    pub index: String,
    pub hours: u32,
    /// The model tag to use for the executive summary.
    pub provider: String,
    pub output_dir: String,
}

/// Work that the state asks to be done.
#[derive(Debug, Clone)]
pub enum Command {
    Nothing,
    Load(LoadRequest),
    Analyse(AnalyseRequest),
    Report(ReportRequest),
    /// Write the selection and the shown analysis to a file in this directory.
    Export(String),
}

/// `a` and `b` hold the same alert.
pub open spec fn same_entry(a: Entry, b: Entry) -> bool {
    &&& a.id == b.id
    &&& a.timestamp == b.timestamp
    &&& a.level == b.level
    &&& a.agent == b.agent
    &&& a.rule_id == b.rule_id
    &&& a.description == b.description
    &&& a.raw == b.raw
    &&& a.full_log == b.full_log
    &&& views(a.mitre_techniques@) == views(b.mitre_techniques@)
    &&& views(a.mitre_ids@) == views(b.mitre_ids@)
    &&& a.ai_note == b.ai_note
}

fn copy_strings(v: &Vec<String>) -> (r: Vec<String>)
    ensures
        views(r@) == views(v@),
{
    let mut r: Vec<String> = Vec::new();
    let mut i: usize = 0;
    while i < v.len()
        invariant
            i <= v.len(),
            views(r@) == views(v@.take(i as int)),
        decreases v.len() - i,
    {
        r.push(v[i].clone());
        proof {
            assert(views(v@.take(i + 1)) =~= views(v@.take(i as int)).push(v@[i as int]@));
        }
        i = i + 1;
        assert(views(r@) =~= views(v@.take(i as int)));
    }
    assert(v@.take(v.len() as int) =~= v@);
    r
}

fn copy_opt(o: &Option<String>) -> (r: Option<String>)
    ensures
        r == *o,
{
    match o {
        Some(s) => Some(s.clone()),
        None => None,
    }
}

impl Entry {
    /// A copy of this entry.
    pub fn duplicate(&self) -> (r: Entry)
        ensures
            same_entry(r, *self),
    {
        Entry {
            id: self.id.clone(),
            timestamp: self.timestamp.clone(),
            level: self.level,
            agent: self.agent.clone(),
            rule_id: self.rule_id.clone(),
            description: self.description.clone(),
            raw: self.raw.clone(),
            full_log: copy_opt(&self.full_log),
            mitre_techniques: copy_strings(&self.mitre_techniques),
            mitre_ids: copy_strings(&self.mitre_ids),
            ai_note: match &self.ai_note {
                Some(n) => Some(
                    AiNote { reasoning: n.reasoning.clone(), confidence_pct: n.confidence_pct.clone() },
                ),
                None => None,
            },
        }
    }
}

/// The filters of the entry search for the state `a`.
pub open spec fn filters_match(f: Filters, a: App) -> bool {
    &&& f.min_level == a.filter_level
    &&& opt_view(f.agent) == (if a.filter_agent@.len() == 0 {
        None
    } else {
        Some(a.filter_agent@)
    })
    &&& f.hours == Some(a.filter_hours)
}

/// The message shown when an analysis is asked for with nothing selected.
pub open spec fn nothing_selected_msg() -> Seq<char> {
    " No entries selected — press Space to select entries first."@
}

/// The analysis panel's text while an analysis of `n` entries by `provider` runs.
pub open spec fn analysing_msg(n: nat, provider: Seq<char>) -> Seq<char> {
    "Analysing "@ + decimal(n) + " entries with "@ + provider + "…\n\n"@
}

impl App {
    /// `new` and `cmd` follow from asking to load the current page of `self`: nothing
    /// without an index; otherwise the search of the page, with `Loading...` shown.
    pub open spec fn load_started(self, new: App, cmd: Command) -> bool {
        match self.current_index {
            None => new == self && cmd is Nothing,
            Some(index) => {
                &&& new == (App { status: new.status, ..self })
                &&& new.status@ == " Loading..."@
                &&& cmd matches Command::Load(r) && {
                    &&& r.index@ == index@
                    &&& filters_match(r.filters, self)
                    &&& r.size == self.page_size
                    &&& r.from == self.page * self.page_size
                }
            },
        }
    }

    /// `new` and `cmd` follow from asking to analyse the selection of `self`.
    pub open spec fn analysis_started(self, new: App, cmd: Command) -> bool {
        let sel = selected_of(self.entries@, self.selected());
        if sel.len() == 0 {
            &&& new == (App { status: new.status, ..self })
            &&& new.status@ == nothing_selected_msg()
            &&& cmd is Nothing
        } else {
            &&& new == (App {
                analysis_text: new.analysis_text,
                is_analysing: true,
                analysis_scroll: 0,
                analysis_auto_scroll: true,
                ..self
            })
            &&& new.analysis_text@ == analysing_msg(sel.len(), self.llm_provider@)
            &&& cmd matches Command::Analyse(r) && {
                &&& r.provider == self.llm_provider
                &&& r.entries@.len() == sel.len()
                &&& forall|i: int| 0 <= i < sel.len() ==> same_entry(#[trigger] r.entries@[i], sel[i])
            }
        }
    }

    /// `new` and `cmd` follow from asking for a daily report in the state `self`.
    pub open spec fn report_started(self, new: App, cmd: Command) -> bool {
        match self.current_index {
            None => {
                &&& new == (App { status: new.status, ..self })
                &&& new.status@ == " No index selected — cannot generate report."@
                &&& cmd is Nothing
            },
            Some(index) => if self.is_running_skill {
                &&& new == (App { status: new.status, ..self })
                &&& new.status@ == " A skill is already running."@
                &&& cmd is Nothing
            } else {
                &&& new == (App {
                    analysis_text: new.analysis_text,
                    is_analysing: true,
                    is_running_skill: true,
                    analysis_scroll: 0,
                    analysis_auto_scroll: true,
                    history_view: None,
                    ..self
                })
                &&& new.analysis_text@ == "Generating Daily Activity Report…\n\n"@
                &&& cmd matches Command::Report(r) && {
                    &&& r.index@ == index@
                    &&& r.hours == self.filter_hours
                    &&& r.provider == self.llm_provider
                    &&& r.output_dir == self.output_dir
                }
            },
        }
    }

    /// Asks for the current page of entries with the current filters.
    pub fn begin_load(&mut self) -> (cmd: Command)
        requires
            old(self).page * old(self).page_size <= usize::MAX,
        ensures
            old(self).load_started(*final(self), cmd),
    {
        let index = match &self.current_index {
            Some(i) => i.clone(),
            None => {
                return Command::Nothing;
            },
        };
        let agent = if self.filter_agent.as_str().is_empty() {
            None
        } else {
            Some(self.filter_agent.clone())
        };
        let filters = Filters { min_level: self.filter_level, agent, hours: Some(self.filter_hours) };
        let from = self.page * self.page_size;
        let size = self.page_size;
        self.status = owned(" Loading...");
        Command::Load(LoadRequest { index, filters, size, from })
    }

    /// Asks for an analysis of the selected entries with the current model.
    pub fn begin_analyse(&mut self) -> (cmd: Command)
        requires
            old(self).wf(),
        ensures
            old(self).analysis_started(*final(self), cmd),
    {
        let picked = self.selected_entries();
        let ghost sel = selected_of(self.entries@, self.selected());
        if picked.len() == 0 {
            self.status = owned(" No entries selected — press Space to select entries first.");
            return Command::Nothing;
        }
        let mut entries: Vec<Entry> = Vec::new();
        let mut i: usize = 0;
        while i < picked.len()
            invariant
                i <= picked.len(),
                crate::app::derefs(picked@) == sel,
                entries@.len() == i,
                forall|k: int| 0 <= k < i ==> same_entry(#[trigger] entries@[k], sel[k]),
            decreases picked.len() - i,
        {
            assert(*picked@[i as int] == sel[i as int]);
            entries.push(picked[i].duplicate());
            i = i + 1;
        }
        let n = picked.len();
        let provider = self.llm_provider.clone();
        let mut text = owned("Analysing ");
        push_decimal(&mut text, n as u128);
        push_str(&mut text, " entries with ");
        push_str(&mut text, self.llm_provider.as_str());
        push_str(&mut text, "…\n\n");
        assert(text@ =~= analysing_msg(sel.len(), self.llm_provider@));
        self.analysis_text = text;
        self.is_analysing = true;
        self.analysis_scroll = 0;
        self.analysis_auto_scroll = true;
        Command::Analyse(AnalyseRequest { entries, provider })
    }

    /// Asks for a daily activity report of the current index and time range.
    pub fn begin_report(&mut self) -> (cmd: Command)
        ensures
            old(self).report_started(*final(self), cmd),
    {
        let index = match &self.current_index {
            Some(i) => i.clone(),
            None => {
                self.status = owned(" No index selected — cannot generate report.");
                return Command::Nothing;
            },
        };
        if self.is_running_skill {
            self.status = owned(" A skill is already running.");
            return Command::Nothing;
        }
        let hours = self.filter_hours;
        let provider = self.llm_provider.clone();
        self.analysis_text = owned("Generating Daily Activity Report…\n\n");
        self.is_analysing = true;
        self.is_running_skill = true;
        self.analysis_scroll = 0;
        self.analysis_auto_scroll = true;
        self.history_view = None;
        Command::Report(ReportRequest { index, hours, provider, output_dir: self.output_dir.clone() })
    }

    /// Shows how an export ended: the number of entries and the file written, or the error.
    pub fn finish_export(&mut self, outcome: Result<(usize, String), String>)
        ensures
            *final(self) == (App { status: final(self).status, ..*old(self) }),
            final(self).status@ == match outcome {
                Ok((n, path)) => " Exported "@ + decimal(n as nat) + " entries → "@ + path@,
                Err(e) => " Export failed: "@ + e@,
            },
    {
        let mut s: String;
        match &outcome {
            Ok((n, path)) => {
                s = owned(" Exported ");
                push_decimal(&mut s, *n as u128);
                push_str(&mut s, " entries → ");
                push_str(&mut s, path.as_str());
            },
            Err(e) => {
                s = owned(" Export failed: ");
                push_str(&mut s, e.as_str());
            },
        }
        self.status = s;
    }
}

// ----------------------------------------------------------------------------
// A running daily report
// ----------------------------------------------------------------------------

/// Where a running report is.
#[derive(Debug, Clone, Copy, PartialEq, Eq, Structural)]
pub enum ReportPhase {
    /// Waiting for the figures.
    Fetching,
    /// Receiving the executive summary.
    Summarising,
    /// Waiting for the file to be written.
    Saving,
    Finished,
}

/// A running daily report: what it covers, where it is, and the summary received so far.
#[derive(Debug, Clone)]
pub struct ReportTask {
    pub index: String,
    pub hours: u32,
    pub phase: ReportPhase,
    pub summary: String,
}

/// What happens to a running report.
#[derive(Debug, Clone)]
pub enum ReportEvent {
    /// The figures could not be fetched.
    StatsFailed(String),
    /// The figures arrived; their total number of alerts.
    StatsReady(usize),
    /// A piece of the executive summary.
    Chunk(String),
    /// The summary stream ended.
    SummaryEnded,
    /// The report was written to this path.
    Saved(String),
    /// The report could not be written.
    SaveFailed(String),
}

/// `new` and `msgs` follow from `ev` in the report `t`: a failed fetch ends the
/// report with the error; the figures start the summary with the report's header;
/// each piece of summary is kept and shown; the end of the summary asks for the file;
/// the file written (or its failure) is reported, and the analysis ends either way.
/// Events out of turn change nothing.
pub open spec fn report_step(t: ReportTask, ev: ReportEvent, new: ReportTask, msgs: Seq<AppMessage>) -> bool {
    match ev {
        ReportEvent::StatsFailed(e) => if t.phase == ReportPhase::Fetching {
            new == (ReportTask { phase: ReportPhase::Finished, ..t }) && msgs == seq![AppMessage::Error(e)]
        } else {
            new == t && msgs.len() == 0
        },
        ReportEvent::StatsReady(total) => if t.phase == ReportPhase::Fetching {
            &&& new == (ReportTask { phase: ReportPhase::Summarising, ..t })
            &&& msgs.len() == 2
            &&& msgs[0] matches AppMessage::LlmChunk(h) && h@ == report_header(t.hours, t.index@, total)
            &&& msgs[1] matches AppMessage::Status(m) && m@ == " Generating LLM executive summary…"@
        } else {
            new == t && msgs.len() == 0
        },
        ReportEvent::Chunk(c) => if t.phase == ReportPhase::Summarising {
            &&& new == (ReportTask { summary: new.summary, ..t })
            &&& new.summary@ == t.summary@ + c@
            &&& msgs == seq![AppMessage::LlmChunk(c)]
        } else {
            new == t && msgs.len() == 0
        },
        ReportEvent::SummaryEnded => if t.phase == ReportPhase::Summarising {
            new == (ReportTask { phase: ReportPhase::Saving, ..t }) && msgs.len() == 0
        } else {
            new == t && msgs.len() == 0
        },
        ReportEvent::Saved(path) => if t.phase == ReportPhase::Saving {
            &&& new == (ReportTask { phase: ReportPhase::Finished, ..t })
            &&& msgs == seq![AppMessage::ReportSaved(path), AppMessage::LlmDone]
        } else {
            new == t && msgs.len() == 0
        },
        ReportEvent::SaveFailed(e) => if t.phase == ReportPhase::Saving {
            &&& new == (ReportTask { phase: ReportPhase::Finished, ..t })
            &&& msgs.len() == 2
            &&& msgs[0] matches AppMessage::Error(m) && m@ == "Report save failed: "@ + e@
            &&& msgs[1] is LlmDone
        } else {
            new == t && msgs.len() == 0
        },
    }
}

impl ReportTask {
    /// A report that starts fetching its figures, and the status it shows meanwhile.
    pub fn start(r: &ReportRequest) -> (res: (ReportTask, AppMessage))
        ensures
            res.0.index == r.index,
            res.0.hours == r.hours,
            res.0.phase == ReportPhase::Fetching,
            res.0.summary@.len() == 0,
            res.1 matches AppMessage::Status(m) && m@ == " Fetching SOC statistics…"@,
    {
        let t = ReportTask {
            index: r.index.clone(),
            hours: r.hours,
            phase: ReportPhase::Fetching,
            summary: String::new(),
        };
        (t, AppMessage::Status(owned(" Fetching SOC statistics…")))
    }

    /// Takes in one event; returns the messages to send, in order.
    pub fn step(&mut self, ev: ReportEvent) -> (msgs: Vec<AppMessage>)
        ensures
            report_step(*old(self), ev, *final(self), msgs@),
    {
        let mut msgs: Vec<AppMessage> = Vec::new();
        match ev {
            ReportEvent::StatsFailed(e) => {
                if self.phase == ReportPhase::Fetching {
                    let ghost g = e;
                    self.phase = ReportPhase::Finished;
                    msgs.push(AppMessage::Error(e));
                    assert(msgs@ =~= seq![AppMessage::Error(g)]);
                }
            },
            ReportEvent::StatsReady(total) => {
                if self.phase == ReportPhase::Fetching {
                    self.phase = ReportPhase::Summarising;
                    msgs.push(AppMessage::LlmChunk(report_stream_header(self.hours, self.index.as_str(), total)));
                    msgs.push(AppMessage::Status(owned(" Generating LLM executive summary…")));
                }
            },
            ReportEvent::Chunk(c) => {
                if self.phase == ReportPhase::Summarising {
                    let ghost g = c;
                    push_str(&mut self.summary, c.as_str());
                    msgs.push(AppMessage::LlmChunk(c));
                    assert(msgs@ =~= seq![AppMessage::LlmChunk(g)]);
                }
            },
            ReportEvent::SummaryEnded => {
                if self.phase == ReportPhase::Summarising {
                    self.phase = ReportPhase::Saving;
                }
            },
            ReportEvent::Saved(path) => {
                if self.phase == ReportPhase::Saving {
                    let ghost g = path;
                    self.phase = ReportPhase::Finished;
                    msgs.push(AppMessage::ReportSaved(path));
                    msgs.push(AppMessage::LlmDone);
                    assert(msgs@ =~= seq![AppMessage::ReportSaved(g), AppMessage::LlmDone]);
                }
            },
            ReportEvent::SaveFailed(e) => {
                if self.phase == ReportPhase::Saving {
                    self.phase = ReportPhase::Finished;
                    let mut m = owned("Report save failed: ");
                    push_str(&mut m, e.as_str());
                    msgs.push(AppMessage::Error(m));
                    msgs.push(AppMessage::LlmDone);
                }
            },
        }
        msgs
    }
}

// ----------------------------------------------------------------------------
// Files written
// ----------------------------------------------------------------------------

/// What an export writes: the raw JSON of the selected entries, in table order, and
/// the analysis shown.
#[derive(Debug, Clone)]
pub struct ExportContent {
    pub entries: Vec<String>,
    pub analysis: String,
}

/// The raw JSON of each of `es`.
pub open spec fn raws(es: Seq<Entry>) -> Seq<Seq<char>> {
    es.map_values(|e: Entry| e.raw@)
}

impl App {
    /// What an export of the current state writes.
    pub fn export_content(&self) -> (c: ExportContent)
        ensures
            views(c.entries@) == raws(selected_of(self.entries@, self.selected())),
            c.analysis@ == self.displayed(),
    {
        let picked = self.selected_entries();
        let ghost sel = selected_of(self.entries@, self.selected());
        let mut entries: Vec<String> = Vec::new();
        let mut i: usize = 0;
        while i < picked.len()
            invariant
                i <= picked.len(),
                crate::app::derefs(picked@) == sel,
                views(entries@) == raws(sel.take(i as int)),
            decreases picked.len() - i,
        {
            assert(*picked@[i as int] == sel[i as int]);
            let ghost before = views(entries@);
            entries.push(picked[i].raw.clone());
            assert(views(entries@) =~= before.push(sel[i as int].raw@));
            assert(raws(sel.take(i + 1)) =~= raws(sel.take(i as int)).push(sel[i as int].raw@));
            i = i + 1;
        }
        assert(sel.take(i as int) =~= sel);
        ExportContent { entries, analysis: owned(self.displayed_analysis()) }
    }
}

/// The name of the export file written at `ts` seconds since the epoch.
pub fn export_file_name(ts: u64) -> (s: String)
    ensures
        s@ == "soc-export-"@ + decimal(ts as nat) + ".json"@,
{
    let mut s = owned("soc-export-");
    push_decimal(&mut s, ts as u128);
    push_str(&mut s, ".json");
    s
}

/// The name of the report file of the day `date`.
pub fn report_file_name(date: &str) -> (s: String)
    ensures
        s@ == "soc-report-"@ + date@ + ".md"@,
{
    let mut s = owned("soc-report-");
    push_str(&mut s, date);
    push_str(&mut s, ".md");
    s
}

} // verus!
