//! The terminal's state and the operations on it that do not wait on anything.
use std::collections::VecDeque;
use vstd::prelude::*;
use crate::alerts::Entry;
use crate::text::{decimal, owned, push_decimal, push_str, same, trim, trimmed, views};
use crate::json::{json_member_pretty, member_pretty};

verus! {

broadcast use vstd::string::group_string_axioms;

/// How many finished analyses the history keeps.
pub const MAX_HISTORY: usize = 10;

/// The time ranges the picker offers, in hours.
pub open spec fn range_hours(i: int) -> u32 {
    if i == 0 {
        1
    } else if i == 1 {
        6
    } else if i == 2 {
        24
    } else if i == 3 {
        168
    } else {
        720
    }
}

/// The number of time ranges the picker offers.
pub const TIME_RANGE_COUNT: usize = 5;

/// The hours of the `i`-th time range of the picker.
pub fn time_range_hours(i: usize) -> (h: u32)
    requires
        i < TIME_RANGE_COUNT,
    ensures
        h == range_hours(i as int),
{
    if i == 0 {
        1
    } else if i == 1 {
        6
    } else if i == 2 {
        24
    } else if i == 3 {
        168
    } else {
        720
    }
}

/// The label of the `i`-th time range of the picker.
pub open spec fn range_label(i: int) -> Seq<char> {
    if i == 0 {
        "Last 1 hour"@
    } else if i == 1 {
        "Last 6 hours"@
    } else if i == 2 {
        "Last 24 hours"@
    } else if i == 3 {
        "Last 7 days"@
    } else {
        "Last 30 days"@
    }
}

/// The label of the `i`-th time range of the picker.
pub fn time_range_label(i: usize) -> (s: &'static str)
    requires
        i < TIME_RANGE_COUNT,
    ensures
        s@ == range_label(i as int),
{
    if i == 0 {
        "Last 1 hour"
    } else if i == 1 {
        "Last 6 hours"
    } else if i == 2 {
        "Last 24 hours"
    } else if i == 3 {
        "Last 7 days"
    } else {
        "Last 30 days"
    }
}

/// The position of the first time range of `hours` hours, if any.
pub open spec fn range_position(hours: u32) -> Option<int> {
    if hours == 1 {
        Some(0)
    } else if hours == 6 {
        Some(1)
    } else if hours == 24 {
        Some(2)
    } else if hours == 168 {
        Some(3)
    } else if hours == 720 {
        Some(4)
    } else {
        None
    }
}

/// The position of the first time range of `hours` hours, if any.
pub fn time_range_position(hours: u32) -> (r: Option<usize>)
    ensures
        match r {
            Some(i) => range_position(hours) == Some(i as int) && range_hours(i as int) == hours,
            None => range_position(hours) is None,
        },
        forall|i: int| 0 <= i < TIME_RANGE_COUNT && range_hours(i) == hours ==> r is Some,
{
    let mut i: usize = 0;
    while i < TIME_RANGE_COUNT
        invariant
            i <= TIME_RANGE_COUNT,
            forall|k: int| 0 <= k < i ==> range_hours(k) != hours,
        decreases TIME_RANGE_COUNT - i,
    {
        if time_range_hours(i) == hours {
            assert(i == 0 || range_hours(0) != hours);
            assert(i <= 1 || range_hours(1) != hours);
            assert(i <= 2 || range_hours(2) != hours);
            assert(i <= 3 || range_hours(3) != hours);
            return Some(i);
        }
        i = i + 1;
    }
    assert(range_hours(0) != hours && range_hours(1) != hours && range_hours(2) != hours
        && range_hours(3) != hours && range_hours(4) != hours);
    None
}

/// The terminal's state.
pub struct App {
    // Index
    pub indices: Vec<String>,
    pub current_index: Option<String>,
    // Entries
    pub entries: Vec<Entry>,
    pub total_entries: usize,
    pub table_cursor: usize,
    pub page: usize,
    pub page_size: usize,
    // Selection: the ids of the selected entries, each once.
    pub selected_ids: Vec<String>,
    // Filters
    pub filter_level: u8,
    pub filter_hours: u32,
    pub filter_agent: String,
    // Language model and analysis
    pub llm_provider: String,
    pub llm_tags: Vec<String>,
    pub analysis_text: String,
    pub is_analysing: bool,
    pub analysis_scroll: i32,
    pub analysis_auto_scroll: bool,
    pub analysis_max_scroll: usize,
    // Finished analyses, oldest first.
    pub analysis_history: VecDeque<String>,
    /// `None`: the live analysis is shown; `Some(i)`: `analysis_history[i]`.
    pub history_view: Option<usize>,
    // Interface
    pub status: String,
    pub should_quit: bool,
    pub show_index_picker: bool,
    pub index_picker_cursor: usize,
    pub show_help: bool,
    // Detail panel
    pub show_detail: bool,
    pub detail_scroll: usize,
    pub detail_max_scroll: usize,
    // Time range picker
    pub show_time_picker: bool,
    pub time_picker_cursor: usize,
    // Agent filter input
    pub show_agent_filter: bool,
    pub agent_filter_input: String,
    // Skill picker
    pub show_skill_picker: bool,
    pub skill_picker_cursor: usize,
    pub is_running_skill: bool,
    // Where exports and reports go.
    pub output_dir: String,
}

/// The selection after the id `id` is toggled.
pub open spec fn toggled(sel: Set<Seq<char>>, id: Seq<char>) -> Set<Seq<char>> {
    if sel.contains(id) {
        sel.remove(id)
    } else {
        sel.insert(id)
    }
}

/// `n` divided by `d`, rounded up.
pub open spec fn div_ceil(n: nat, d: nat) -> nat {
    n / d + (if n % d == 0 {
        0nat
    } else {
        1nat
    })
}

/// The number of pages of `total` entries, at least one.
pub open spec fn page_count(total: nat, page_size: nat) -> nat {
    let p = div_ceil(total, page_size);
    if p == 0 {
        1
    } else {
        p
    }
}

/// The history view after Tab: from the live view to the newest analysis,
/// then to older ones, and from the oldest back to the live view.
pub open spec fn next_history_view(view: Option<usize>, len: nat) -> Option<usize> {
    match view {
        None => Some((if len == 0 {
            0
        } else {
            len - 1
        }) as usize),
        Some(i) => if i == 0 {
            None
        } else {
            Some((i - 1) as usize)
        },
    }
}

/// The history after `text` is added: the newest `MAX_HISTORY` analyses, oldest first.
pub open spec fn history_after(h: Seq<String>, text: String) -> Seq<String> {
    if h.len() >= MAX_HISTORY {
        h.drop_first().push(text)
    } else {
        h.push(text)
    }
}

/// The index of the first occurrence of `x` in `s`.
pub open spec fn first_index(s: Seq<Seq<char>>, x: Seq<char>) -> Option<int>
    decreases s.len(),
{
    if s.len() == 0 {
        None
    } else if s[0] == x {
        Some(0)
    } else {
        match first_index(s.drop_first(), x) {
            Some(i) => Some(i + 1),
            None => None,
        }
    }
}

/// When no item before `j` is `x`, the first occurrence of `x` is at `j` if `s[j]` is
/// `x`, and there is none if `j` is the end.
pub proof fn lemma_first_index(s: Seq<Seq<char>>, x: Seq<char>, j: int)
    requires
        0 <= j <= s.len(),
        forall|k: int| 0 <= k < j ==> s[k] != x,
    ensures
        j < s.len() && s[j] == x ==> first_index(s, x) == Some(j),
        j == s.len() ==> first_index(s, x) is None,
    decreases j,
{
    if j > 0 {
        assert forall|k: int| 0 <= k < j - 1 implies s.drop_first()[k] != x by {
            assert(s.drop_first()[k] == s[k + 1]);
        }
        lemma_first_index(s.drop_first(), x, j - 1);
    }
}

/// The tag that follows `provider` among `tags`: the one after its first occurrence,
/// wrapping around, or the first tag when it does not occur.
pub open spec fn next_tag_index(tags: Seq<Seq<char>>, provider: Seq<char>) -> int {
    match first_index(tags, provider) {
        Some(i) => (i + 1) % (tags.len() as int),
        None => 0,
    }
}

/// The indented JSON the detail popup shows of an alert's raw JSON: its `_source` member.
pub open spec fn source_pretty(raw: Seq<char>) -> Seq<char> {
    json_member_pretty(raw, "_source"@)
}

/// The ids of `entries`, in order.
pub open spec fn entry_ids(entries: Seq<Entry>) -> Seq<Seq<char>> {
    entries.map_values(|e: Entry| e.id@)
}

/// The entries that the references `v` point to.
pub open spec fn derefs(v: Seq<&Entry>) -> Seq<Entry> {
    v.map_values(|e: &Entry| *e)
}

/// The entries of `entries` whose id is selected, in order.
pub open spec fn selected_of(entries: Seq<Entry>, sel: Set<Seq<char>>) -> Seq<Entry>
    decreases entries.len(),
{
    if entries.len() == 0 {
        Seq::empty()
    } else if sel.contains(entries.last().id@) {
        selected_of(entries.drop_last(), sel).push(entries.last())
    } else {
        selected_of(entries.drop_last(), sel)
    }
}

// ----------------------------------------------------------------------------
// The selection as a vector of distinct ids
// ----------------------------------------------------------------------------

fn find_id(v: &Vec<String>, id: &str) -> (r: Option<usize>)
    ensures
        match r {
            Some(j) => j < v@.len() && v@[j as int]@ == id@ && first_index(views(v@), id@) == Some(
                j as int,
            ),
            None => !views(v@).contains(id@) && first_index(views(v@), id@) is None,
        },
{
    let mut j: usize = 0;
    while j < v.len()
        invariant
            j <= v.len(),
            forall|k: int| 0 <= k < j ==> v@[k]@ != id@,
        decreases v.len() - j,
    {
        if same(v[j].as_str(), id) {
            proof {
                assert forall|k: int| 0 <= k < j implies views(v@)[k] != id@ by {
                    assert(views(v@)[k] == v@[k]@);
                }
                lemma_first_index(views(v@), id@, j as int);
            }
            return Some(j);
        }
        j = j + 1;
    }
    proof {
        assert forall|k: int| 0 <= k < v.len() implies views(v@)[k] != id@ by {
            assert(views(v@)[k] == v@[k]@);
        }
        lemma_first_index(views(v@), id@, v.len() as int);
        if views(v@).contains(id@) {
            let k = choose|k: int| 0 <= k < views(v@).len() && views(v@)[k] == id@;
            assert(v@[k]@ == id@);
        }
    }
    None
}

/// Adds `id` to the selection `v` unless it is there.
fn select_id(v: &mut Vec<String>, id: &String)
    requires
        views(old(v)@).no_duplicates(),
    ensures
        views(final(v)@).no_duplicates(),
        views(final(v)@).to_set() == views(old(v)@).to_set().insert(id@),
{
    match find_id(v, id.as_str()) {
        Some(j) => {
            assert(views(v@)[j as int] == id@);
            assert(views(v@).to_set() =~= views(v@).to_set().insert(id@));
        },
        None => {
            let ghost before = views(v@);
            v.push(id.clone());
            assert(views(v@) =~= before.push(id@));
            assert(views(v@).to_set() =~= before.to_set().insert(id@)) by {
                assert forall|a: Seq<char>| views(v@).contains(a) <==> before.to_set().insert(id@).contains(a) by {
                    if views(v@).contains(a) {
                        let k = choose|k: int| 0 <= k < views(v@).len() && views(v@)[k] == a;
                        if k < before.len() {
                            assert(before[k] == a);
                        }
                    }
                    if before.contains(a) {
                        let k = choose|k: int| 0 <= k < before.len() && before[k] == a;
                        assert(views(v@)[k] == a);
                    }
                    if a == id@ {
                        assert(views(v@)[before.len() as int] == a);
                    }
                }
            }
        },
    }
}

/// Removes `id` from the selection `v` when it is there; returns whether it was.
fn deselect_id(v: &mut Vec<String>, id: &String) -> (was: bool)
    requires
        views(old(v)@).no_duplicates(),
    ensures
        views(final(v)@).no_duplicates(),
        was == views(old(v)@).to_set().contains(id@),
        views(final(v)@).to_set() == views(old(v)@).to_set().remove(id@),
{
    match find_id(v, id.as_str()) {
        Some(j) => {
            let ghost before = views(v@);
            assert(before[j as int] == id@);
            v.remove(j);
            assert(views(v@) =~= before.remove(j as int));
            assert(views(v@).to_set() =~= before.to_set().remove(id@)) by {
                assert forall|a: Seq<char>| views(v@).contains(a) <==> before.to_set().remove(id@).contains(a) by {
                    if views(v@).contains(a) {
                        let k = choose|k: int| 0 <= k < views(v@).len() && views(v@)[k] == a;
                        if k < j {
                            assert(before[k] == a);
                            assert(k != j);
                        } else {
                            assert(before[k + 1] == a);
                        }
                    }
                    if before.contains(a) && a != id@ {
                        let k = choose|k: int| 0 <= k < before.len() && before[k] == a;
                        assert(k != j);
                        if k < j {
                            assert(views(v@)[k] == a);
                        } else {
                            assert(views(v@)[k - 1] == a);
                        }
                    }
                }
            }
            true
        },
        None => {
            assert(views(v@).to_set() =~= views(v@).to_set().remove(id@));
            false
        },
    }
}

impl App {
    /// The ids of the selected entries.
    pub open spec fn selected(&self) -> Set<Seq<char>> {
        views(self.selected_ids@).to_set()
    }

    /// The state is consistent: each selected id occurs once, the history keeps at
    /// most `MAX_HISTORY` analyses, pages are not empty, the first entry of the page has
    /// an offset that fits a `usize`, and the time range cursor is on a range.
    pub open spec fn wf(&self) -> bool {
        &&& views(self.selected_ids@).no_duplicates()
        &&& self.analysis_history@.len() <= MAX_HISTORY
        &&& self.page_size > 0
        &&& self.page * self.page_size <= usize::MAX
        &&& self.time_picker_cursor < TIME_RANGE_COUNT
    }

    /// The status line: totals, page, selection, filters, index and model.
    pub open spec fn status_line(&self) -> Seq<char> {
        " "@ + decimal(self.total_entries as nat) + " entries | Page "@ + decimal(
            self.page as nat + 1,
        ) + "/"@ + decimal(page_count(self.total_entries as nat, self.page_size as nat))
            + " | Selected: "@ + decimal(self.selected_ids@.len()) + " | Lvl≥"@ + decimal(
            self.filter_level as nat,
        ) + " | Last "@ + decimal(self.filter_hours as nat) + "h"@ + (if self.filter_agent@.len()
            == 0 {
            Seq::empty()
        } else {
            " | Agent: "@ + self.filter_agent@
        }) + " | "@ + (match self.current_index {
            Some(i) => i@,
            None => "none"@,
        }) + " | LLM: "@ + self.llm_provider@
    }

    /// The text the analysis panel shows.
    pub open spec fn displayed(&self) -> Seq<char> {
        match self.history_view {
            None => self.analysis_text@,
            Some(i) => if i < self.analysis_history@.len() {
                self.analysis_history@[i as int]@
            } else {
                Seq::empty()
            },
        }
    }

    /// The entry under the cursor, if any.
    pub open spec fn cursor_entry(&self) -> Option<Entry> {
        if self.table_cursor < self.entries@.len() {
            Some(self.entries@[self.table_cursor as int])
        } else {
            None
        }
    }

    /// The state after the status line is rewritten.
    pub open spec fn status_refreshed(self, new: App) -> bool {
        &&& new == (App { status: new.status, ..self })
        &&& new.status@ == self.status_line()
    }

    /// `new` is `self` with the selection `sel` and a status line rewritten for it.
    pub open spec fn selection_changed(self, new: App, sel: Set<Seq<char>>) -> bool {
        &&& new.wf()
        &&& new.selected() == sel
        &&& (App { selected_ids: new.selected_ids, ..self }).status_refreshed(new)
    }

    /// The state after the cursor moves one row up.
    pub open spec fn after_move_up(self) -> App {
        App {
            table_cursor: if self.table_cursor > 0 {
                (self.table_cursor - 1) as usize
            } else {
                0
            },
            ..self
        }
    }

    /// The state after the cursor moves one row down.
    pub open spec fn after_move_down(self) -> App {
        App {
            table_cursor: if self.table_cursor + 1 < self.entries@.len() {
                (self.table_cursor + 1) as usize
            } else {
                self.table_cursor
            },
            ..self
        }
    }

    /// The index of the last page that holds entries.
    pub open spec fn last_page(self) -> int {
        (if self.total_entries > 0 {
            self.total_entries - 1
        } else {
            0
        }) / (self.page_size as int)
    }

    /// The state after moving to the next page, if there is one.
    pub open spec fn after_next_page(self) -> App {
        if self.page < self.last_page() {
            App { page: (self.page + 1) as usize, table_cursor: 0, ..self }
        } else {
            self
        }
    }

    /// The state after moving to the previous page, if there is one.
    pub open spec fn after_prev_page(self) -> App {
        if self.page > 0 {
            App { page: (self.page - 1) as usize, table_cursor: 0, ..self }
        } else {
            self
        }
    }

    /// The state after Tab in the analysis panel.
    pub open spec fn after_cycle_history(self) -> App {
        if self.analysis_history@.len() == 0 {
            self
        } else {
            App {
                history_view: next_history_view(self.history_view, self.analysis_history@.len()),
                analysis_scroll: 0,
                analysis_auto_scroll: false,
                ..self
            }
        }
    }

    /// `new` is `self` after the entry under the cursor is toggled.
    pub open spec fn toggled_current(self, new: App) -> bool {
        match self.cursor_entry() {
            Some(e) => self.selection_changed(new, toggled(self.selected(), e.id@)),
            None => new == self,
        }
    }

    /// `new` is `self` after the model toggle.
    pub open spec fn llm_toggled(self, new: App) -> bool {
        if self.llm_tags@.len() == 0 {
            new == self
        } else {
            &&& new.llm_provider@ == views(self.llm_tags@)[next_tag_index(
                views(self.llm_tags@),
                self.llm_provider@,
            )]
            &&& (App { llm_provider: new.llm_provider, ..self }).status_refreshed(new)
        }
    }

    /// `new` is `self` after the finished analysis is kept in the history.
    pub open spec fn analysis_saved(self, new: App) -> bool {
        if trim(self.analysis_text@).len() == 0 {
            new == self
        } else {
            &&& new.analysis_history@.len() > 0
            &&& new.analysis_history@.last()@ == trim(self.analysis_text@)
            &&& new.analysis_history@.drop_last() == (if self.analysis_history@.len()
                >= MAX_HISTORY {
                self.analysis_history@.drop_first()
            } else {
                self.analysis_history@
            })
            &&& new == (App {
                analysis_history: new.analysis_history,
                history_view: None,
                ..self
            })
        }
    }

    /// A fresh state: nothing loaded, the last 24 hours, levels from 1, the live analysis shown.
    /// The state is consistent exactly when pages are not empty (`page_size > 0`).
    pub fn new(page_size: usize, llm_provider: String, llm_tags: Vec<String>, output_dir: String) -> (app:
        App)
        ensures
            app.wf() <==> page_size > 0,
            app.indices@.len() == 0,
            app.current_index is None,
            app.entries@.len() == 0,
            app.total_entries == 0,
            app.table_cursor == 0,
            app.page == 0,
            app.page_size == page_size,
            app.selected_ids@.len() == 0,
            app.filter_level == 1,
            app.filter_hours == 24,
            app.filter_agent@.len() == 0,
            app.llm_provider == llm_provider,
            app.llm_tags == llm_tags,
            app.analysis_text@.len() == 0,
            !app.is_analysing,
            app.analysis_scroll == 0,
            app.analysis_auto_scroll,
            app.analysis_max_scroll == 0,
            app.analysis_history@.len() == 0,
            app.history_view is None,
            app.status@ == "Connecting to OpenSearch..."@,
            !app.should_quit,
            !app.show_index_picker,
            app.index_picker_cursor == 0,
            !app.show_help,
            !app.show_detail,
            app.detail_scroll == 0,
            app.detail_max_scroll == 0,
            !app.show_time_picker,
            app.time_picker_cursor == 2,
            !app.show_agent_filter,
            app.agent_filter_input@.len() == 0,
            !app.show_skill_picker,
            app.skill_picker_cursor == 0,
            !app.is_running_skill,
            app.output_dir == output_dir,
    {
        let time_cursor = match time_range_position(24) {
            Some(i) => i,
            None => 2,
        };
        let app = App {
            indices: Vec::new(),
            current_index: None,
            entries: Vec::new(),
            total_entries: 0,
            table_cursor: 0,
            page: 0,
            page_size,
            selected_ids: Vec::new(),
            filter_level: 1,
            filter_hours: 24,
            filter_agent: String::new(),
            llm_provider,
            llm_tags,
            analysis_text: String::new(),
            is_analysing: false,
            analysis_scroll: 0,
            analysis_auto_scroll: true,
            analysis_max_scroll: 0,
            analysis_history: VecDeque::new(),
            history_view: None,
            status: owned("Connecting to OpenSearch..."),
            should_quit: false,
            show_index_picker: false,
            index_picker_cursor: 0,
            show_help: false,
            show_detail: false,
            detail_scroll: 0,
            detail_max_scroll: 0,
            show_time_picker: false,
            time_picker_cursor: time_cursor,
            show_agent_filter: false,
            agent_filter_input: String::new(),
            show_skill_picker: false,
            skill_picker_cursor: 0,
            is_running_skill: false,
            output_dir,
        };
        assert(views(app.selected_ids@) =~= Seq::<Seq<char>>::empty());
        app
    }

    /// Rewrites the status line from the current state.
    pub fn update_status(&mut self)
        requires
            old(self).page_size > 0,
        ensures
            old(self).status_refreshed(*final(self)),
    {
        let ps = self.page_size;
        let q = self.total_entries / ps;
        let ceil = if self.total_entries % ps == 0 {
            q
        } else {
            assert(q < self.total_entries) by (nonlinear_arith)
                requires
                    q == self.total_entries / ps,
                    ps > 0,
                    self.total_entries % ps != 0,
            ;
            q + 1
        };
        let pages = if ceil == 0 {
            1
        } else {
            ceil
        };
        let mut s = owned(" ");
        push_decimal(&mut s, self.total_entries as u128);
        push_str(&mut s, " entries | Page ");
        push_decimal(&mut s, self.page as u128 + 1);
        push_str(&mut s, "/");
        push_decimal(&mut s, pages as u128);
        push_str(&mut s, " | Selected: ");
        push_decimal(&mut s, self.selected_ids.len() as u128);
        push_str(&mut s, " | Lvl≥");
        push_decimal(&mut s, self.filter_level as u128);
        push_str(&mut s, " | Last ");
        push_decimal(&mut s, self.filter_hours as u128);
        push_str(&mut s, "h");
        if !self.filter_agent.as_str().is_empty() {
            push_str(&mut s, " | Agent: ");
            push_str(&mut s, self.filter_agent.as_str());
        }
        push_str(&mut s, " | ");
        match &self.current_index {
            Some(i) => push_str(&mut s, i.as_str()),
            None => push_str(&mut s, "none"),
        }
        push_str(&mut s, " | LLM: ");
        push_str(&mut s, self.llm_provider.as_str());
        proof {
            assert(s@ =~= self.status_line());
        }
        self.status = s;
    }

    /// Selects every entry of the current page.
    pub fn select_all_visible(&mut self)
        requires
            old(self).wf(),
        ensures
            old(self).selection_changed(
                *final(self),
                old(self).selected() + entry_ids(old(self).entries@).to_set(),
            ),
    {
        let mut i: usize = 0;
        while i < self.entries.len()
            invariant
                i <= self.entries.len(),
                self.wf(),
                *self == (App { selected_ids: self.selected_ids, ..*old(self) }),
                self.selected() == old(self).selected() + entry_ids(self.entries@.take(i as int)).to_set(),
            decreases self.entries.len() - i,
        {
            let ghost pre_sel = self.selected();
            select_id(&mut self.selected_ids, &self.entries[i].id);
            proof {
                assert(self.selected() == pre_sel.insert(self.entries@[i as int].id@));
                let pre = entry_ids(self.entries@.take(i as int));
                let new_id = self.entries@[i as int].id@;
                let post = entry_ids(self.entries@.take(i + 1));
                assert(post =~= pre.push(new_id));
                assert forall|a: Seq<char>| post.contains(a) <==> (pre.contains(a) || a == new_id) by {
                    if post.contains(a) {
                        let k = choose|k: int| 0 <= k < post.len() && post[k] == a;
                        if k < pre.len() {
                            assert(pre[k] == a);
                        }
                    }
                    if pre.contains(a) {
                        let k = choose|k: int| 0 <= k < pre.len() && pre[k] == a;
                        assert(post[k] == a);
                    }
                    if a == new_id {
                        assert(post[i as int] == a);
                    }
                }
                let goal = old(self).selected() + post.to_set();
                assert(pre_sel == old(self).selected() + pre.to_set());
                assert forall|a: Seq<char>| self.selected().contains(a) <==> goal.contains(a) by {
                    assert(post.contains(a) <==> (pre.contains(a) || a == new_id));
                }
                assert(self.selected() =~= goal);
            }
            i = i + 1;
        }
        assert(self.entries@.take(self.entries.len() as int) =~= self.entries@);
        self.update_status();
    }

    /// The entry under the cursor, if any.
    pub fn current_entry(&self) -> (r: Option<&Entry>)
        ensures
            match r {
                Some(e) => self.cursor_entry() == Some(*e),
                None => self.cursor_entry() is None,
            },
    {
        if self.table_cursor < self.entries.len() {
            Some(&self.entries[self.table_cursor])
        } else {
            None
        }
    }

    /// The `_source` of the entry under the cursor as indented JSON; empty when there is none.
    pub fn detail_json(&self) -> (s: String)
        ensures
            s@ == match self.cursor_entry() {
                Some(e) => source_pretty(e.raw@),
                None => Seq::empty(),
            },
    {
        match self.current_entry() {
            Some(e) => member_pretty(e.raw.as_str(), "_source"),
            None => String::new(),
        }
    }

    /// Selects the entry under the cursor, or deselects it when it is selected.
    pub fn toggle_select_current(&mut self)
        requires
            old(self).wf(),
        ensures
            final(self).wf(),
            old(self).toggled_current(*final(self)),
    {
        if self.table_cursor < self.entries.len() {
            let id = self.entries[self.table_cursor].id.clone();
            let ghost sel = self.selected();
            if !deselect_id(&mut self.selected_ids, &id) {
                assert(sel.remove(id@) =~= sel);
                select_id(&mut self.selected_ids, &id);
            }
            assert(self.selected() == toggled(sel, id@));
            let ghost mid = *self;
            self.update_status();
            assert(mid.wf());
        }
    }

    /// Moves the cursor one row up, stopping at the first row.
    pub fn move_up(&mut self)
        ensures
            *final(self) == old(self).after_move_up(),
    {
        self.table_cursor = self.table_cursor.saturating_sub(1);
    }

    /// Moves the cursor one row down, stopping at the last entry.
    pub fn move_down(&mut self)
        ensures
            *final(self) == old(self).after_move_down(),
    {
        if self.entries.len() > 0 && self.table_cursor < self.entries.len() - 1 {
            self.table_cursor = self.table_cursor + 1;
        }
    }

    /// Goes to the next page, if there is one, with the cursor on its first row.
    pub fn next_page(&mut self)
        requires
            old(self).page_size > 0,
        ensures
            *final(self) == old(self).after_next_page(),
            old(self).wf() ==> final(self).wf(),
    {
        let last = self.total_entries.saturating_sub(1) / self.page_size;
        if self.page < last {
            proof {
                let ps = self.page_size as int;
                let t = if self.total_entries > 0 {
                    self.total_entries - 1
                } else {
                    0
                };
                assert((self.page + 1) * ps <= t) by (nonlinear_arith)
                    requires
                        self.page < t / ps,
                        ps > 0,
                        t >= 0,
                ;
            }
            self.page = self.page + 1;
            self.table_cursor = 0;
        }
    }

    /// Goes to the previous page, if there is one, with the cursor on its first row.
    pub fn prev_page(&mut self)
        ensures
            *final(self) == old(self).after_prev_page(),
    {
        if self.page > 0 {
            self.page = self.page - 1;
            self.table_cursor = 0;
        }
    }

    /// The selected entries of the current page, in table order.
    pub fn selected_entries(&self) -> (r: Vec<&Entry>)
        ensures
            derefs(r@) == selected_of(self.entries@, self.selected()),
    {
        let mut r: Vec<&Entry> = Vec::new();
        let mut i: usize = 0;
        while i < self.entries.len()
            invariant
                i <= self.entries.len(),
                derefs(r@) == selected_of(self.entries@.take(i as int), self.selected()),
            decreases self.entries.len() - i,
        {
            let e = &self.entries[i];
            let hit = find_id(&self.selected_ids, e.id.as_str());
            proof {
                let t = self.entries@.take(i + 1);
                assert(t.drop_last() =~= self.entries@.take(i as int));
                assert(t.last() == *e);
                match hit {
                    Some(j) => {
                        assert(views(self.selected_ids@)[j as int] == e.id@);
                    },
                    None => {},
                }
            }
            let ghost before = derefs(r@);
            if hit.is_some() {
                r.push(e);
                assert(derefs(r@) =~= before.push(*e));
            }
            i = i + 1;
        }
        assert(self.entries@.take(self.entries.len() as int) =~= self.entries@);
        r
    }

    /// Deselects everything.
    pub fn clear_selection(&mut self)
        requires
            old(self).wf(),
        ensures
            old(self).selection_changed(*final(self), Set::empty()),
    {
        self.selected_ids.clear();
        assert(views(self.selected_ids@) =~= Seq::<Seq<char>>::empty());
        assert(self.selected() =~= Set::<Seq<char>>::empty());
        self.update_status();
    }

    /// Switches to the next model tag, wrapping around; from an unknown tag, to the first one.
    pub fn toggle_llm(&mut self)
        requires
            old(self).wf(),
        ensures
            final(self).wf(),
            old(self).llm_toggled(*final(self)),
    {
        if self.llm_tags.len() == 0 {
            return ;
        }
        let n = self.llm_tags.len();
        let pos = find_id(&self.llm_tags, self.llm_provider.as_str());
        let next = match pos {
            Some(i) => (i + 1) % n,
            None => 0,
        };
        assert(next == next_tag_index(views(self.llm_tags@), self.llm_provider@));
        assert(views(self.llm_tags@)[next as int] == self.llm_tags@[next as int]@);
        self.llm_provider = self.llm_tags[next].clone();
        self.update_status();
    }

    /// Keeps the finished analysis, trimmed, in the history (the newest `MAX_HISTORY`),
    /// and shows the live view; an analysis that is blank is not kept.
    pub fn save_analysis(&mut self)
        requires
            old(self).wf(),
        ensures
            final(self).wf(),
            old(self).analysis_saved(*final(self)),
    {
        let text = trimmed(self.analysis_text.as_str());
        if text.as_str().is_empty() {
            return ;
        }
        if self.analysis_history.len() >= MAX_HISTORY {
            self.analysis_history.pop_front();
        }
        let ghost mid = self.analysis_history@;
        self.analysis_history.push_back(text);
        assert(self.analysis_history@.drop_last() =~= mid);
        self.history_view = None;
    }

    /// Tab: steps from the live view to the newest analysis, then to older ones,
    /// and from the oldest back to the live view; stops auto-scrolling.
    pub fn cycle_history(&mut self)
        ensures
            *final(self) == old(self).after_cycle_history(),
    {
        if self.analysis_history.len() == 0 {
            return ;
        }
        self.history_view = match self.history_view {
            None => Some(self.analysis_history.len() - 1),
            Some(0) => None,
            Some(i) => Some(i - 1),
        };
        self.analysis_scroll = 0;
        self.analysis_auto_scroll = false;
    }

    /// The text the analysis panel shows: the live analysis, or the chosen
    /// analysis of the history (empty when there is no such analysis).
    pub fn displayed_analysis(&self) -> (s: &str)
        ensures
            s@ == self.displayed(),
    {
        match self.history_view {
            None => self.analysis_text.as_str(),
            Some(i) => {
                if i < self.analysis_history.len() {
                    self.analysis_history[i].as_str()
                } else {
                    proof {
                        reveal_strlit("");
                    }
                    assert(""@ =~= Seq::<char>::empty());
                    ""
                }
            },
        }
    }
}

// ----------------------------------------------------------------------------
// Laws
// ----------------------------------------------------------------------------

/// Toggling the same entry twice leaves the selection as it was.
pub proof fn lemma_toggle_twice(sel: Set<Seq<char>>, id: Seq<char>)
    ensures
        toggled(toggled(sel, id), id) == sel,
{
    if sel.contains(id) {
        assert(sel.remove(id).insert(id) =~= sel);
    } else {
        assert(sel.insert(id).remove(id) =~= sel);
    }
}

/// The history view after Tab is pressed `k` times.
pub open spec fn history_view_after(view: Option<usize>, len: nat, k: nat) -> Option<usize>
    decreases k,
{
    if k == 0 {
        view
    } else {
        next_history_view(history_view_after(view, len, (k - 1) as nat), len)
    }
}

/// From the live view, Tab shows the `k`-th newest analysis for each `k` up to the
/// length of the history, and one more Tab comes back to the live view.
pub proof fn lemma_history_cycle(len: nat, k: nat)
    requires
        0 < len <= MAX_HISTORY,
        k <= len + 1,
    ensures
        1 <= k <= len ==> history_view_after(None, len, k) == Some((len - k) as usize),
        k == len + 1 ==> history_view_after(None, len, k) is None,
    decreases k,
{
    if k > 0 {
        lemma_history_cycle(len, (k - 1) as nat);
    }
}

/// The provider after the model toggle is pressed `k` times.
pub open spec fn provider_after(tags: Seq<Seq<char>>, p: Seq<char>, k: nat) -> Seq<char>
    decreases k,
{
    if k == 0 {
        p
    } else {
        let q = provider_after(tags, p, (k - 1) as nat);
        tags[next_tag_index(tags, q)]
    }
}

proof fn lemma_first_index_distinct(tags: Seq<Seq<char>>, i: int)
    requires
        tags.no_duplicates(),
        0 <= i < tags.len(),
    ensures
        first_index(tags, tags[i]) == Some(i),
{
    lemma_first_index(tags, tags[i], i);
}

/// With distinct tags, pressing the model toggle `k` times from the `i`-th tag
/// selects the tag `k` places further, wrapping around; so `tags.len()` presses
/// come back to the same tag.
pub proof fn lemma_toggle_llm_cycle(tags: Seq<Seq<char>>, i: int, k: nat)
    requires
        tags.no_duplicates(),
        0 <= i < tags.len(),
    ensures
        provider_after(tags, tags[i], k) == tags[(i + k) % (tags.len() as int)],
        provider_after(tags, tags[i], tags.len()) == tags[i],
{
    lemma_toggle_llm_steps(tags, i, k);
    lemma_toggle_llm_cycle_full(tags, i);
}

proof fn lemma_toggle_llm_cycle_full(tags: Seq<Seq<char>>, i: int)
    requires
        tags.no_duplicates(),
        0 <= i < tags.len(),
    ensures
        provider_after(tags, tags[i], tags.len()) == tags[i],
{
    lemma_toggle_llm_steps(tags, i, tags.len());
    assert((i + tags.len()) % (tags.len() as int) == i) by (nonlinear_arith)
        requires
            0 <= i < tags.len(),
    ;
}

proof fn lemma_toggle_llm_steps(tags: Seq<Seq<char>>, i: int, k: nat)
    requires
        tags.no_duplicates(),
        0 <= i < tags.len(),
    ensures
        provider_after(tags, tags[i], k) == tags[(i + k) % (tags.len() as int)],
    decreases k,
{
    let n = tags.len() as int;
    if k == 0 {
        assert(i % n == i) by (nonlinear_arith)
            requires
                0 <= i < n,
        ;
    } else {
        lemma_toggle_llm_steps(tags, i, (k - 1) as nat);
        let j = (i + k - 1) % n;
        assert(0 <= j < n) by (nonlinear_arith)
            requires
                j == (i + k - 1) % n,
                n > 0,
        ;
        lemma_first_index_distinct(tags, j);
        assert((j + 1) % n == (i + k) % n) by (nonlinear_arith)
            requires
                j == (i + k - 1) % n,
                n > 0,
                k > 0,
        ;
    }
}

/// In a consistent state the status line's selection count is the number of selected entries.
pub proof fn lemma_selection_count(a: App)
    requires
        a.wf(),
    ensures
        a.selected_ids@.len() == a.selected().len(),
{
    views(a.selected_ids@).unique_seq_to_set();
}

/// Moving to the next page and back returns to the same page, when there is a next page.
pub proof fn lemma_next_then_prev_page(a: App)
    requires
        a.page_size > 0,
        a.page < a.last_page(),
    ensures
        a.after_next_page().after_prev_page().page == a.page,
        a.after_next_page().page <= a.last_page(),
{
    let t: int = if a.total_entries > 0 {
        a.total_entries - 1
    } else {
        0
    };
    let ps = a.page_size as int;
    assert(t / ps <= t) by (nonlinear_arith)
        requires
            t >= 0,
            ps > 0,
    ;
}

/// Paging never goes past the last page that holds entries.
pub proof fn lemma_next_page_bounded(a: App)
    requires
        a.page <= a.last_page(),
    ensures
        a.after_next_page().page <= a.last_page(),
        a.after_next_page().last_page() == a.last_page(),
{
}

} // verus!
