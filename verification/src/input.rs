//! What each key does, in each view.
use vstd::prelude::*;
use crate::app::{
    first_index, range_hours, range_position, time_range_hours, time_range_position, App,
    TIME_RANGE_COUNT,
};
use crate::skills::{skill, SKILL_COUNT};
use crate::tasks::Command;
use crate::text::{pop_char, push_char, same, trim, trimmed, views};

verus! {

broadcast use vstd::string::group_string_axioms;

/// The keys the terminal tells apart.
#[derive(Debug, Clone, Copy, PartialEq, Eq, Structural)]
pub enum KeyCode {
    Char(char),
    Up,
    Down,
    Left,
    Right,
    Enter,
    Esc,
    Tab,
    Backspace,
    PageUp,
    PageDown,
    Other,
}

/// A key press: the key and whether Control was held.
#[derive(Debug, Clone, Copy, PartialEq, Eq, Structural)]
pub struct Key {
    pub code: KeyCode,
    pub ctrl: bool,
}

pub open spec fn is_char(k: Key, c: char) -> bool {
    k.code == KeyCode::Char(c)
}

/// Up, or `k`.
pub open spec fn is_up(k: Key) -> bool {
    k.code == KeyCode::Up || is_char(k, 'k')
}

/// Down, or `j`.
pub open spec fn is_down(k: Key) -> bool {
    k.code == KeyCode::Down || is_char(k, 'j')
}

pub open spec fn dec(n: usize) -> usize {
    if n > 0 {
        (n - 1) as usize
    } else {
        0
    }
}

pub open spec fn dec_by(n: usize, d: usize) -> usize {
    if n > d {
        (n - d) as usize
    } else {
        0
    }
}

/// The level bound after `+`: one more, at most 15.
pub open spec fn level_up(l: u8) -> u8 {
    if l >= 14 {
        15
    } else {
        (l + 1) as u8
    }
}

/// The level bound after `-`: one less, at least 1.
pub open spec fn level_down(l: u8) -> u8 {
    if l <= 2 {
        1
    } else {
        (l - 1) as u8
    }
}

/// The analysis scroll offset after `[`: one line up, no further than the top.
pub open spec fn scroll_up(scroll: i32, max_scroll: usize) -> i32 {
    let floor = -((max_scroll as i32) as int);
    if scroll - 1 > floor {
        (scroll - 1) as i32
    } else {
        floor as i32
    }
}

/// The analysis scroll offset after `]`: one line down, no further than the bottom.
pub open spec fn scroll_down(scroll: i32) -> i32 {
    if scroll + 1 < 0 {
        (scroll + 1) as i32
    } else {
        0
    }
}

impl App {
    /// No picker, panel or help is open.
    pub open spec fn in_main_view(self) -> bool {
        !self.show_help && !self.show_index_picker && !self.show_detail && !self.show_time_picker
            && !self.show_agent_filter && !self.show_skill_picker
    }

    /// The key keeps the scroll arithmetic in range: `[` needs room below the analysis
    /// offset and a maximum offset whose negation as an `i32` does not overflow, `]` room
    /// above the offset, and Page Down in the detail panel room for ten more rows.
    pub open spec fn key_in_range(self, key: Key) -> bool {
        &&& self.in_main_view() && is_char(key, '[') ==> self.analysis_scroll > i32::MIN && (
        self.analysis_max_scroll as i32) != i32::MIN
        &&& self.in_main_view() && is_char(key, ']') ==> self.analysis_scroll < i32::MAX
        &&& !self.show_help && !self.show_index_picker && self.show_detail && key.code
            == KeyCode::PageDown ==> self.detail_scroll + 10 <= usize::MAX
    }

    /// The index picker: move, confirm (switch index and reload), or close.
    pub open spec fn index_picker_step(self, key: Key, new: App, cmd: Command) -> bool {
        if key.code == KeyCode::Esc || is_char(key, 'q') {
            new == (App { show_index_picker: false, ..self }) && cmd is Nothing
        } else if is_up(key) {
            new == (App { index_picker_cursor: dec(self.index_picker_cursor), ..self })
                && cmd is Nothing
        } else if is_down(key) {
            new == (App {
                index_picker_cursor: if self.index_picker_cursor + 1 < self.indices@.len() {
                    (self.index_picker_cursor + 1) as usize
                } else {
                    self.index_picker_cursor
                },
                ..self
            }) && cmd is Nothing
        } else if key.code == KeyCode::Enter {
            if self.index_picker_cursor < self.indices@.len() {
                &&& new.current_index == Some(self.indices@[self.index_picker_cursor as int])
                &&& new.selected_ids@.len() == 0
                &&& (App {
                    current_index: new.current_index,
                    page: 0,
                    selected_ids: new.selected_ids,
                    show_index_picker: false,
                    ..self
                }).load_started(new, cmd)
            } else {
                new == self && cmd is Nothing
            }
        } else {
            new == self && cmd is Nothing
        }
    }

    /// The detail panel: scroll, or close.
    pub open spec fn detail_step(self, key: Key, new: App, cmd: Command) -> bool {
        &&& cmd is Nothing
        &&& if key.code == KeyCode::Esc || key.code == KeyCode::Enter || is_char(key, 'q') {
            new == (App { show_detail: false, ..self })
        } else if is_up(key) {
            new == (App { detail_scroll: dec(self.detail_scroll), ..self })
        } else if is_down(key) {
            new == (App {
                detail_scroll: if self.detail_scroll < self.detail_max_scroll {
                    (self.detail_scroll + 1) as usize
                } else {
                    self.detail_scroll
                },
                ..self
            })
        } else if key.code == KeyCode::PageUp {
            new == (App { detail_scroll: dec_by(self.detail_scroll, 10), ..self })
        } else if key.code == KeyCode::PageDown {
            new == (App {
                detail_scroll: if self.detail_scroll + 10 < self.detail_max_scroll {
                    (self.detail_scroll + 10) as usize
                } else {
                    self.detail_max_scroll
                },
                ..self
            })
        } else {
            new == self
        }
    }

    /// The time range picker: move, confirm (set the range and reload), or close.
    pub open spec fn time_picker_step(self, key: Key, new: App, cmd: Command) -> bool {
        if key.code == KeyCode::Esc || is_char(key, 'q') {
            new == (App { show_time_picker: false, ..self }) && cmd is Nothing
        } else if is_up(key) {
            new == (App { time_picker_cursor: dec(self.time_picker_cursor), ..self })
                && cmd is Nothing
        } else if is_down(key) {
            new == (App {
                time_picker_cursor: if self.time_picker_cursor + 1 < TIME_RANGE_COUNT {
                    (self.time_picker_cursor + 1) as usize
                } else {
                    self.time_picker_cursor
                },
                ..self
            }) && cmd is Nothing
        } else if key.code == KeyCode::Enter {
            (App {
                filter_hours: range_hours(self.time_picker_cursor as int),
                show_time_picker: false,
                page: 0,
                ..self
            }).load_started(new, cmd)
        } else {
            new == self && cmd is Nothing
        }
    }

    /// The agent filter input: edit, apply (trimmed, and reload), or close.
    pub open spec fn agent_filter_step(self, key: Key, new: App, cmd: Command) -> bool {
        if key.code == KeyCode::Esc {
            new == (App { show_agent_filter: false, ..self }) && cmd is Nothing
        } else if key.code == KeyCode::Enter {
            &&& new.filter_agent@ == trim(self.agent_filter_input@)
            &&& (App {
                filter_agent: new.filter_agent,
                show_agent_filter: false,
                page: 0,
                ..self
            }).load_started(new, cmd)
        } else if key.code == KeyCode::Backspace {
            &&& new == (App { agent_filter_input: new.agent_filter_input, ..self })
            &&& new.agent_filter_input@ == (if self.agent_filter_input@.len() > 0 {
                self.agent_filter_input@.drop_last()
            } else {
                self.agent_filter_input@
            })
            &&& cmd is Nothing
        } else if is_char(key, 'u') && key.ctrl {
            &&& new == (App { agent_filter_input: new.agent_filter_input, ..self })
            &&& new.agent_filter_input@.len() == 0
            &&& cmd is Nothing
        } else if key.code is Char {
            &&& new == (App { agent_filter_input: new.agent_filter_input, ..self })
            &&& new.agent_filter_input@ == self.agent_filter_input@.push(key.code->Char_0)
            &&& cmd is Nothing
        } else {
            new == self && cmd is Nothing
        }
    }

    /// The skill picker: move, run the chosen skill, or close.
    pub open spec fn skill_picker_step(self, key: Key, new: App, cmd: Command) -> bool {
        if key.code == KeyCode::Esc || is_char(key, 'q') {
            new == (App { show_skill_picker: false, ..self }) && cmd is Nothing
        } else if is_up(key) {
            new == (App { skill_picker_cursor: dec(self.skill_picker_cursor), ..self })
                && cmd is Nothing
        } else if is_down(key) {
            new == (App {
                skill_picker_cursor: if self.skill_picker_cursor + 1 < SKILL_COUNT {
                    (self.skill_picker_cursor + 1) as usize
                } else {
                    self.skill_picker_cursor
                },
                ..self
            }) && cmd is Nothing
        } else if key.code == KeyCode::Enter {
            if self.skill_picker_cursor < SKILL_COUNT {
                // The only skill on offer writes the daily activity report.
                (App { show_skill_picker: false, ..self }).report_started(new, cmd)
            } else {
                new == self && cmd is Nothing
            }
        } else {
            new == self && cmd is Nothing
        }
    }

    /// The main view.
    pub open spec fn main_step(self, key: Key, new: App, cmd: Command) -> bool {
        if is_char(key, 'q') || is_char(key, 'Q') || (is_char(key, 'c') && key.ctrl) {
            new == (App { should_quit: true, ..self }) && cmd is Nothing
        } else if is_up(key) {
            new == self.after_move_up() && cmd is Nothing
        } else if is_down(key) {
            new == self.after_move_down() && cmd is Nothing
        } else if is_char(key, ' ') {
            self.toggled_current(new) && cmd is Nothing
        } else if key.code == KeyCode::Enter {
            (if self.cursor_entry() is Some {
                new == (App { show_detail: true, detail_scroll: 0, ..self })
            } else {
                new == self
            }) && cmd is Nothing
        } else if is_char(key, 'a') && key.ctrl {
            self.selection_changed(
                new,
                self.selected() + crate::app::entry_ids(self.entries@).to_set(),
            ) && cmd is Nothing
        } else if is_char(key, 'a') || is_char(key, 'A') {
            (App { history_view: None, ..self }).analysis_started(new, cmd)
        } else if is_char(key, 's') || is_char(key, 'S') {
            new == (App { show_skill_picker: true, ..self }) && cmd is Nothing
        } else if is_char(key, 'r') || is_char(key, 'R') {
            self.load_started(new, cmd)
        } else if is_char(key, 'n') || key.code == KeyCode::Right {
            self.after_next_page().load_started(new, cmd)
        } else if is_char(key, 'p') || key.code == KeyCode::Left {
            self.after_prev_page().load_started(new, cmd)
        } else if is_char(key, 'c') {
            self.selection_changed(new, Set::empty()) && cmd is Nothing
        } else if is_char(key, 'i') || is_char(key, 'I') {
            new == (App {
                index_picker_cursor: match self.current_index {
                    Some(cur) => match first_index(views(self.indices@), cur@) {
                        Some(i) => i as usize,
                        None => 0,
                    },
                    None => self.index_picker_cursor,
                },
                show_index_picker: true,
                ..self
            }) && cmd is Nothing
        } else if is_char(key, 't') || is_char(key, 'T') {
            new == (App {
                time_picker_cursor: match range_position(self.filter_hours) {
                    Some(i) => i as usize,
                    None => 2,
                },
                show_time_picker: true,
                ..self
            }) && cmd is Nothing
        } else if is_char(key, 'f') || is_char(key, 'F') {
            new == (App { agent_filter_input: self.filter_agent, show_agent_filter: true, ..self })
                && cmd is Nothing
        } else if is_char(key, 'e') || is_char(key, 'E') {
            new == self && cmd == Command::Export(self.output_dir)
        } else if is_char(key, '[') {
            new == (App {
                analysis_auto_scroll: false,
                analysis_scroll: scroll_up(self.analysis_scroll, self.analysis_max_scroll),
                ..self
            }) && cmd is Nothing
        } else if is_char(key, ']') {
            new == (App {
                analysis_auto_scroll: false,
                analysis_scroll: scroll_down(self.analysis_scroll),
                ..self
            }) && cmd is Nothing
        } else if key.code == KeyCode::Tab {
            new == self.after_cycle_history() && cmd is Nothing
        } else if is_char(key, 'h') || is_char(key, 'H') || is_char(key, '?') {
            new == (App { show_help: true, ..self }) && cmd is Nothing
        } else if is_char(key, 'l') || is_char(key, 'L') {
            self.llm_toggled(new) && cmd is Nothing
        } else if is_char(key, '+') || is_char(key, '=') {
            (App { filter_level: level_up(self.filter_level), ..self }).load_started(new, cmd)
        } else if is_char(key, '-') {
            (App { filter_level: level_down(self.filter_level), ..self }).load_started(new, cmd)
        } else {
            new == self && cmd is Nothing
        }
    }

    /// What a key does: an open help closes on any key; otherwise the open picker
    /// or panel takes the key; otherwise the main view does.
    pub open spec fn key_step(self, key: Key, new: App, cmd: Command) -> bool {
        if self.show_help {
            new == (App { show_help: false, ..self }) && cmd is Nothing
        } else if self.show_index_picker {
            self.index_picker_step(key, new, cmd)
        } else if self.show_detail {
            self.detail_step(key, new, cmd)
        } else if self.show_time_picker {
            self.time_picker_step(key, new, cmd)
        } else if self.show_agent_filter {
            self.agent_filter_step(key, new, cmd)
        } else if self.show_skill_picker {
            self.skill_picker_step(key, new, cmd)
        } else {
            self.main_step(key, new, cmd)
        }
    }

    /// Handles one key press; returns the work it asks for.
    pub fn handle_key(&mut self, key: Key) -> (cmd: Command)
        requires
            old(self).wf(),
            old(self).key_in_range(key),
        ensures
            final(self).wf(),
            old(self).key_step(key, *final(self), cmd),
    {
        if self.show_help {
            self.show_help = false;
            return Command::Nothing;
        }
        if self.show_index_picker {
            return self.handle_index_picker(key);
        }
        if self.show_detail {
            return self.handle_detail(key);
        }
        if self.show_time_picker {
            return self.handle_time_picker(key);
        }
        if self.show_agent_filter {
            return self.handle_agent_filter(key);
        }
        if self.show_skill_picker {
            return self.handle_skill_picker(key);
        }
        self.handle_main(key)
    }

    #[verifier::rlimit(50)]
    fn handle_index_picker(&mut self, key: Key) -> (cmd: Command)
        requires
            old(self).wf(),
        ensures
            final(self).wf(),
            old(self).index_picker_step(key, *final(self), cmd),
    {
        match key.code {
            KeyCode::Esc | KeyCode::Char('q') => {
                self.show_index_picker = false;
                Command::Nothing
            },
            KeyCode::Up | KeyCode::Char('k') => {
                if self.index_picker_cursor > 0 {
                    self.index_picker_cursor = self.index_picker_cursor - 1;
                }
                Command::Nothing
            },
            KeyCode::Down | KeyCode::Char('j') => {
                if self.indices.len() > 0 && self.index_picker_cursor < self.indices.len() - 1 {
                    self.index_picker_cursor = self.index_picker_cursor + 1;
                }
                Command::Nothing
            },
            KeyCode::Enter => {
                if self.index_picker_cursor < self.indices.len() {
                    let idx = self.indices[self.index_picker_cursor].clone();
                    self.current_index = Some(idx);
                    self.page = 0;
                    self.selected_ids.clear();
                    self.show_index_picker = false;
                    assert(views(self.selected_ids@) =~= Seq::<Seq<char>>::empty());
                    let ghost mid = *self;
                    assert(mid == (App {
                        current_index: mid.current_index,
                        page: 0,
                        selected_ids: mid.selected_ids,
                        show_index_picker: false,
                        ..*old(self)
                    }));
                    let cmd = self.begin_load();
                    assert(mid.load_started(*self, cmd));
                    cmd
                } else {
                    Command::Nothing
                }
            },
            _ => Command::Nothing,
        }
    }

    fn handle_detail(&mut self, key: Key) -> (cmd: Command)
        requires
            old(self).wf(),
            key.code == KeyCode::PageDown ==> old(self).detail_scroll + 10 <= usize::MAX,
        ensures
            final(self).wf(),
            old(self).detail_step(key, *final(self), cmd),
    {
        match key.code {
            KeyCode::Esc | KeyCode::Enter | KeyCode::Char('q') => {
                self.show_detail = false;
            },
            KeyCode::Up | KeyCode::Char('k') => {
                if self.detail_scroll > 0 {
                    self.detail_scroll = self.detail_scroll - 1;
                }
            },
            KeyCode::Down | KeyCode::Char('j') => {
                if self.detail_scroll < self.detail_max_scroll {
                    self.detail_scroll = self.detail_scroll + 1;
                }
            },
            KeyCode::PageUp => {
                self.detail_scroll = if self.detail_scroll > 10 {
                    self.detail_scroll - 10
                } else {
                    0
                };
            },
            KeyCode::PageDown => {
                let down = self.detail_scroll + 10;
                self.detail_scroll = if down < self.detail_max_scroll {
                    down
                } else {
                    self.detail_max_scroll
                };
            },
            _ => {},
        }
        Command::Nothing
    }

    #[verifier::rlimit(50)]
    fn handle_time_picker(&mut self, key: Key) -> (cmd: Command)
        requires
            old(self).wf(),
        ensures
            final(self).wf(),
            old(self).time_picker_step(key, *final(self), cmd),
    {
        match key.code {
            KeyCode::Esc | KeyCode::Char('q') => {
                self.show_time_picker = false;
                Command::Nothing
            },
            KeyCode::Up | KeyCode::Char('k') => {
                if self.time_picker_cursor > 0 {
                    self.time_picker_cursor = self.time_picker_cursor - 1;
                }
                Command::Nothing
            },
            KeyCode::Down | KeyCode::Char('j') => {
                if self.time_picker_cursor < TIME_RANGE_COUNT - 1 {
                    self.time_picker_cursor = self.time_picker_cursor + 1;
                }
                Command::Nothing
            },
            KeyCode::Enter => {
                self.filter_hours = time_range_hours(self.time_picker_cursor);
                self.show_time_picker = false;
                self.page = 0;
                let ghost mid = *self;
                assert(mid == (App {
                    filter_hours: range_hours(old(self).time_picker_cursor as int),
                    show_time_picker: false,
                    page: 0,
                    ..*old(self)
                }));
                let cmd = self.begin_load();
                assert(mid.load_started(*self, cmd));
                cmd
            },
            _ => Command::Nothing,
        }
    }

    fn handle_agent_filter(&mut self, key: Key) -> (cmd: Command)
        requires
            old(self).wf(),
        ensures
            final(self).wf(),
            old(self).agent_filter_step(key, *final(self), cmd),
    {
        match key.code {
            KeyCode::Esc => {
                self.show_agent_filter = false;
                Command::Nothing
            },
            KeyCode::Enter => {
                self.filter_agent = trimmed(self.agent_filter_input.as_str());
                self.show_agent_filter = false;
                self.page = 0;
                self.begin_load()
            },
            KeyCode::Backspace => {
                pop_char(&mut self.agent_filter_input);
                Command::Nothing
            },
            KeyCode::Char(c) => {
                if c == 'u' && key.ctrl {
                    self.agent_filter_input = String::new();
                } else {
                    push_char(&mut self.agent_filter_input, c);
                }
                Command::Nothing
            },
            _ => Command::Nothing,
        }
    }

    fn handle_skill_picker(&mut self, key: Key) -> (cmd: Command)
        requires
            old(self).wf(),
        ensures
            final(self).wf(),
            old(self).skill_picker_step(key, *final(self), cmd),
    {
        match key.code {
            KeyCode::Esc | KeyCode::Char('q') => {
                self.show_skill_picker = false;
                Command::Nothing
            },
            KeyCode::Up | KeyCode::Char('k') => {
                if self.skill_picker_cursor > 0 {
                    self.skill_picker_cursor = self.skill_picker_cursor - 1;
                }
                Command::Nothing
            },
            KeyCode::Down | KeyCode::Char('j') => {
                if self.skill_picker_cursor < SKILL_COUNT - 1 {
                    self.skill_picker_cursor = self.skill_picker_cursor + 1;
                }
                Command::Nothing
            },
            KeyCode::Enter => {
                if self.skill_picker_cursor < SKILL_COUNT {
                    let s = skill(self.skill_picker_cursor);
                    self.show_skill_picker = false;
                    if same(s.id, "daily_report") {
                        self.begin_report()
                    } else {
                        // Not reached: every skill on offer is handled above.
                        Command::Nothing
                    }
                } else {
                    Command::Nothing
                }
            },
            _ => Command::Nothing,
        }
    }

    fn handle_main(&mut self, key: Key) -> (cmd: Command)
        requires
            old(self).wf(),
            old(self).in_main_view(),
            old(self).key_in_range(key),
        ensures
            final(self).wf(),
            old(self).main_step(key, *final(self), cmd),
    {
        match key.code {
            KeyCode::Char('q') | KeyCode::Char('Q') => {
                self.should_quit = true;
                Command::Nothing
            },
            KeyCode::Char('c') if key.ctrl => {
                self.should_quit = true;
                Command::Nothing
            },
            KeyCode::Up | KeyCode::Char('k') => {
                self.move_up();
                Command::Nothing
            },
            KeyCode::Down | KeyCode::Char('j') => {
                self.move_down();
                Command::Nothing
            },
            KeyCode::Char(' ') => {
                self.toggle_select_current();
                Command::Nothing
            },
            KeyCode::Enter => {
                if self.current_entry().is_some() {
                    self.show_detail = true;
                    self.detail_scroll = 0;
                }
                Command::Nothing
            },
            KeyCode::Char('a') if key.ctrl => {
                self.select_all_visible();
                Command::Nothing
            },
            KeyCode::Char('a') | KeyCode::Char('A') => {
                self.history_view = None;
                self.begin_analyse()
            },
            KeyCode::Char('s') | KeyCode::Char('S') => {
                self.show_skill_picker = true;
                Command::Nothing
            },
            KeyCode::Char('r') | KeyCode::Char('R') => self.begin_load(),
            KeyCode::Char('n') | KeyCode::Right => {
                self.next_page();
                self.begin_load()
            },
            KeyCode::Char('p') | KeyCode::Left => {
                let ghost p0 = self.page;
                self.prev_page();
                proof {
                    let p1 = self.page;
                    let ps = self.page_size;
                    assert(p1 * ps <= p0 * ps) by (nonlinear_arith)
                        requires
                            p1 <= p0,
                    ;
                }
                self.begin_load()
            },
            KeyCode::Char('c') => {
                self.clear_selection();
                Command::Nothing
            },
            KeyCode::Char('i') | KeyCode::Char('I') => {
                match &self.current_index {
                    Some(cur) => {
                        let pos = find_index(&self.indices, cur.as_str());
                        self.index_picker_cursor = match pos {
                            Some(i) => i,
                            None => 0,
                        };
                    },
                    None => {},
                }
                self.show_index_picker = true;
                Command::Nothing
            },
            KeyCode::Char('t') | KeyCode::Char('T') => {
                self.time_picker_cursor = match time_range_position(self.filter_hours) {
                    Some(i) => i,
                    None => 2,
                };
                self.show_time_picker = true;
                Command::Nothing
            },
            KeyCode::Char('f') | KeyCode::Char('F') => {
                self.agent_filter_input = self.filter_agent.clone();
                self.show_agent_filter = true;
                Command::Nothing
            },
            KeyCode::Char('e') | KeyCode::Char('E') => Command::Export(self.output_dir.clone()),
            KeyCode::Char('[') => {
                self.analysis_auto_scroll = false;
                let floor: i32 = -(self.analysis_max_scroll as i32);
                let up: i32 = self.analysis_scroll - 1;
                self.analysis_scroll = if up > floor {
                    up
                } else {
                    floor
                };
                Command::Nothing
            },
            KeyCode::Char(']') => {
                self.analysis_auto_scroll = false;
                let down: i32 = self.analysis_scroll + 1;
                self.analysis_scroll = if down < 0 {
                    down
                } else {
                    0
                };
                Command::Nothing
            },
            KeyCode::Tab => {
                self.cycle_history();
                Command::Nothing
            },
            KeyCode::Char('h') | KeyCode::Char('H') | KeyCode::Char('?') => {
                self.show_help = true;
                Command::Nothing
            },
            KeyCode::Char('l') | KeyCode::Char('L') => {
                self.toggle_llm();
                Command::Nothing
            },
            KeyCode::Char('+') | KeyCode::Char('=') => {
                self.filter_level = if self.filter_level >= 14 {
                    15
                } else {
                    self.filter_level + 1
                };
                self.begin_load()
            },
            KeyCode::Char('-') => {
                self.filter_level = if self.filter_level <= 2 {
                    1
                } else {
                    self.filter_level - 1
                };
                self.begin_load()
            },
            _ => Command::Nothing,
        }
    }
}

/// The position of the first of `v` equal to `x`, if any.
fn find_index(v: &Vec<String>, x: &str) -> (r: Option<usize>)
    ensures
        match r {
            Some(i) => first_index(views(v@), x@) == Some(i as int),
            None => first_index(views(v@), x@) is None,
        },
{
    let mut j: usize = 0;
    while j < v.len()
        invariant
            j <= v.len(),
            forall|k: int| 0 <= k < j ==> views(v@)[k] != x@,
        decreases v.len() - j,
    {
        if same(v[j].as_str(), x) {
            proof {
                crate::app::lemma_first_index(views(v@), x@, j as int);
            }
            return Some(j);
        }
        j = j + 1;
    }
    proof {
        crate::app::lemma_first_index(views(v@), x@, v.len() as int);
    }
    None
}

/// The level bound stays within 1 to 15 under `+` and `-`.
pub proof fn lemma_level_bounds(l: u8)
    ensures
        level_up(l) <= 15,
        1 <= level_down(l),
        1 <= l <= 15 ==> 1 <= level_up(l) && level_down(l) <= 15,
{
}

/// The analysis scroll offset stays at or above the top under `[`, and at or below
/// the bottom (offset 0) under `]`.
pub proof fn lemma_scroll_bounds(scroll: i32, max_scroll: usize)
    requires
        scroll > i32::MIN,
        (max_scroll as i32) != i32::MIN,
    ensures
        scroll_up(scroll, max_scroll) >= -((max_scroll as i32) as int),
        scroll < i32::MAX ==> scroll_down(scroll) <= 0,
{
}

/// Every key keeps the level filter within 1 to 15, so it stays there over any
/// number of presses; `+`, `=` and `-` move it by one within those bounds.
pub proof fn lemma_key_keeps_level(a: App, key: Key, new: App, cmd: Command)
    requires
        1 <= a.filter_level <= 15,
        a.key_step(key, new, cmd),
    ensures
        1 <= new.filter_level <= 15,
{
}

/// Every key keeps the analysis scroll offset between the top (the maximum offset,
/// negated) and the bottom (0), and leaves the maximum offset as it is, so the
/// offset stays in bounds over any number of presses.
pub proof fn lemma_key_keeps_analysis_scroll(a: App, key: Key, new: App, cmd: Command)
    requires
        -((a.analysis_max_scroll as i32) as int) <= a.analysis_scroll <= 0,
        a.key_step(key, new, cmd),
    ensures
        new.analysis_max_scroll == a.analysis_max_scroll,
        -((new.analysis_max_scroll as i32) as int) <= new.analysis_scroll <= 0,
{
}

/// Every key keeps the detail scroll offset at most the detail panel's maximum offset,
/// and leaves that maximum as it is, so the offset stays in bounds over any number of
/// presses.
pub proof fn lemma_key_keeps_detail_scroll(a: App, key: Key, new: App, cmd: Command)
    requires
        a.detail_scroll <= a.detail_max_scroll,
        a.key_step(key, new, cmd),
    ensures
        new.detail_max_scroll == a.detail_max_scroll,
        new.detail_scroll <= new.detail_max_scroll,
{
}

} // verus!
