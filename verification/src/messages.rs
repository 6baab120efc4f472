//! What the terminal does when background work reports back.
use vstd::prelude::*;
use crate::alerts::Entry;
use crate::app::App;
use crate::tasks::Command;
use crate::text::{contains, has_substring, owned, push_str, views};

verus! {

broadcast use vstd::string::group_string_axioms;

/// A report from background work.
#[derive(Debug, Clone)]
pub enum AppMessage {
    IndicesLoaded(Vec<String>),
    /// One page of entries and the total number of matching entries.
    EntriesLoaded(Vec<Entry>, usize),
    LlmChunk(String),
    LlmDone,
    Error(String),
    /// New status bar text (from background skills).
    Status(String),
    /// A skill saved a file; its path.
    ReportSaved(String),
}

/// The index opened first: the first whose name contains `wazuh-alerts`, else the first one.
pub open spec fn default_index(names: Seq<Seq<char>>) -> Option<int> {
    match first_containing(names, "wazuh-alerts"@) {
        Some(i) => Some(i),
        None => if names.len() > 0 {
            Some(0)
        } else {
            None
        },
    }
}

/// The position of the first of `names` that contains `pat`.
pub open spec fn first_containing(names: Seq<Seq<char>>, pat: Seq<char>) -> Option<int>
    decreases names.len(),
{
    if names.len() == 0 {
        None
    } else if contains(names[0], pat) {
        Some(0)
    } else {
        match first_containing(names.drop_first(), pat) {
            Some(i) => Some(i + 1),
            None => None,
        }
    }
}

proof fn lemma_first_containing(names: Seq<Seq<char>>, pat: Seq<char>, j: int)
    requires
        0 <= j <= names.len(),
        forall|k: int| 0 <= k < j ==> !contains(#[trigger] names[k], pat),
    ensures
        j < names.len() && contains(names[j], pat) ==> first_containing(names, pat) == Some(j),
        j == names.len() ==> first_containing(names, pat) is None,
    decreases j,
{
    if j > 0 {
        assert forall|k: int| 0 <= k < j - 1 implies !contains(#[trigger] names.drop_first()[k], pat) by {
            assert(names.drop_first()[k] == names[k + 1]);
        }
        lemma_first_containing(names.drop_first(), pat, j - 1);
    }
}

fn find_default_index(names: &Vec<String>) -> (r: Option<usize>)
    ensures
        match r {
            Some(i) => i < names@.len() && default_index(views(names@)) == Some(i as int),
            None => default_index(views(names@)) is None,
        },
{
    let mut j: usize = 0;
    while j < names.len()
        invariant
            j <= names.len(),
            forall|k: int| 0 <= k < j ==> !contains(#[trigger] views(names@)[k], "wazuh-alerts"@),
        decreases names.len() - j,
    {
        if has_substring(names[j].as_str(), "wazuh-alerts") {
            proof {
                lemma_first_containing(views(names@), "wazuh-alerts"@, j as int);
            }
            return Some(j);
        }
        j = j + 1;
    }
    proof {
        lemma_first_containing(views(names@), "wazuh-alerts"@, names.len() as int);
    }
    if names.len() > 0 {
        Some(0)
    } else {
        None
    }
}

impl App {
    /// `new` and `cmd` follow from the message `msg` in the state `self`.
    pub open spec fn message_step(self, msg: AppMessage, new: App, cmd: Command) -> bool {
        match msg {
            AppMessage::IndicesLoaded(list) => match default_index(views(list@)) {
                Some(i) => {
                    &&& new.current_index == Some(list@[i])
                    &&& (App { indices: list, current_index: new.current_index, ..self }).load_started(
                        new,
                        cmd,
                    )
                },
                None => {
                    &&& new == (App { indices: list, status: new.status, ..self })
                    &&& new.status@ == "No indices found."@
                    &&& cmd is Nothing
                },
            },
            AppMessage::EntriesLoaded(entries, total) => {
                &&& (App { entries, total_entries: total, table_cursor: 0, ..self }).status_refreshed(
                    new,
                )
                &&& cmd is Nothing
            },
            AppMessage::LlmChunk(text) => {
                &&& new == (App { analysis_text: new.analysis_text, ..self })
                &&& new.analysis_text@ == self.analysis_text@ + text@
                &&& cmd is Nothing
            },
            AppMessage::LlmDone => {
                &&& exists|saved: App|
                    #![trigger self.analysis_saved(saved)]
                    self.analysis_saved(saved) && (App { is_analysing: false, ..saved }).status_refreshed(
                        new,
                    )
                &&& cmd is Nothing
            },
            AppMessage::Error(e) => {
                &&& new == (App {
                    status: new.status,
                    analysis_text: new.analysis_text,
                    is_analysing: false,
                    is_running_skill: false,
                    ..self
                })
                &&& new.status@ == " Error: "@ + e@
                &&& new.analysis_text@ == (if self.is_analysing {
                    self.analysis_text@ + "\n\n⚠  "@ + e@
                } else {
                    self.analysis_text@
                })
                &&& cmd is Nothing
            },
            AppMessage::Status(s) => new == (App { status: s, ..self }) && cmd is Nothing,
            AppMessage::ReportSaved(path) => {
                &&& new == (App { status: new.status, is_running_skill: false, ..self })
                &&& new.status@ == " Report saved → "@ + path@
                &&& cmd is Nothing
            },
        }
    }

    /// Takes in one report from background work; returns the work it asks for.
    #[verifier::rlimit(50)]
    pub fn handle_message(&mut self, msg: AppMessage) -> (cmd: Command)
        requires
            old(self).wf(),
        ensures
            final(self).wf(),
            old(self).message_step(msg, *final(self), cmd),
    {
        match msg {
            AppMessage::IndicesLoaded(list) => self.on_indices_loaded(list),
            AppMessage::EntriesLoaded(entries, total) => {
                self.entries = entries;
                self.total_entries = total;
                self.table_cursor = 0;
                self.update_status();
                Command::Nothing
            },
            AppMessage::LlmChunk(text) => {
                push_str(&mut self.analysis_text, text.as_str());
                Command::Nothing
            },
            AppMessage::LlmDone => self.on_llm_done(),
            AppMessage::Error(e) => self.on_error(e),
            AppMessage::Status(s) => {
                self.status = s;
                Command::Nothing
            },
            AppMessage::ReportSaved(path) => {
                let mut status = owned(" Report saved → ");
                push_str(&mut status, path.as_str());
                self.status = status;
                self.is_running_skill = false;
                Command::Nothing
            },
        }
    }

    fn on_indices_loaded(&mut self, list: Vec<String>) -> (cmd: Command)
        requires
            old(self).wf(),
        ensures
            final(self).wf(),
            old(self).message_step(AppMessage::IndicesLoaded(list), *final(self), cmd),
    {
        let ghost l = list;
        let pick = find_default_index(&list);
        match pick {
            Some(i) => {
                let name = list[i].clone();
                self.indices = list;
                self.current_index = Some(name);
                let ghost mid = *self;
                let cmd = self.begin_load();
                assert(mid == (App { indices: l, current_index: mid.current_index, ..*old(self) }));
                cmd
            },
            None => {
                self.indices = list;
                self.status = owned("No indices found.");
                Command::Nothing
            },
        }
    }

    fn on_llm_done(&mut self) -> (cmd: Command)
        requires
            old(self).wf(),
        ensures
            final(self).wf(),
            old(self).message_step(AppMessage::LlmDone, *final(self), cmd),
    {
        self.save_analysis();
        let ghost saved = *self;
        self.is_analysing = false;
        self.update_status();
        assert(old(self).analysis_saved(saved));
        Command::Nothing
    }

    fn on_error(&mut self, e: String) -> (cmd: Command)
        requires
            old(self).wf(),
        ensures
            final(self).wf(),
            old(self).message_step(AppMessage::Error(e), *final(self), cmd),
    {
        let mut status = owned(" Error: ");
        push_str(&mut status, e.as_str());
        self.status = status;
        if self.is_analysing {
            push_str(&mut self.analysis_text, "\n\n⚠  ");
            push_str(&mut self.analysis_text, e.as_str());
            assert(self.analysis_text@ =~= old(self).analysis_text@ + "\n\n⚠  "@ + e@);
        }
        self.is_analysing = false;
        self.is_running_skill = false;
        Command::Nothing
    }
}

} // verus!
