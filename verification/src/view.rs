//! What the screen shows, short of drawing it: cell texts, titles, tones,
//! popup geometry, and which rows of a panel are in view.
use vstd::prelude::*;
use crate::alerts::Entry;
use crate::app::{source_pretty, range_label, time_range_label, App, TIME_RANGE_COUNT, range_hours};
use crate::text::{
    char_count, decimal, first_chars, owned, push_decimal, push_str, same, take_chars, views,
};
use crate::wrap::{word_wrap, wrapped};

verus! {

broadcast use vstd::string::group_string_axioms;

/// `s` cut to at most `max` characters, an ellipsis marking the cut.
pub open spec fn truncated(s: Seq<char>, max: nat) -> Seq<char> {
    if s.len() > max {
        take_chars(s, if max > 0 {
            (max - 1) as nat
        } else {
            0
        }) + "…"@
    } else {
        s
    }
}

/// `s` cut to at most `max` characters (for `max > 0`), an ellipsis marking the cut.
pub fn truncate(s: &str, max: usize) -> (r: String)
    ensures
        r@ == truncated(s@, max as nat),
{
    if char_count(s) > max {
        let keep = if max > 0 {
            max - 1
        } else {
            0
        };
        let mut r = first_chars(s, keep);
        push_str(&mut r, "…");
        r
    } else {
        owned(s)
    }
}

/// A time range as the controls show it: whole days from two days on as `Nd`
/// (so a day reads `24h`), else `Nh`.
pub open spec fn hours_text(hours: u32) -> Seq<char> {
    if hours >= 48 && hours % 24 == 0 {
        decimal((hours / 24) as nat) + "d"@
    } else {
        decimal(hours as nat) + "h"@
    }
}

/// A time range as the controls show it: whole days as `Nd`, else `Nh`.
pub fn format_hours(hours: u32) -> (s: String)
    ensures
        s@ == hours_text(hours),
{
    let mut s = String::new();
    if hours >= 48 && hours % 24 == 0 {
        push_decimal(&mut s, (hours / 24) as u128);
        push_str(&mut s, "d");
    } else {
        push_decimal(&mut s, hours as u128);
        push_str(&mut s, "h");
    }
    assert(s@ =~= hours_text(hours));
    s
}

/// How an alert level is coloured.
#[derive(Debug, Clone, Copy, PartialEq, Eq, Structural)]
pub enum LevelTone {
    /// 12 and above: bold red.
    Critical,
    /// 8 to 11: red.
    High,
    /// 4 to 7: yellow.
    Medium,
    /// 1 to 3: green.
    Low,
    /// 0: plain.
    Plain,
}

/// How an alert level is coloured.
pub fn level_tone(level: u8) -> (t: LevelTone)
    ensures
        t == (if level >= 12 {
            LevelTone::Critical
        } else if level >= 8 {
            LevelTone::High
        } else if level >= 4 {
            LevelTone::Medium
        } else if level >= 1 {
            LevelTone::Low
        } else {
            LevelTone::Plain
        }),
{
    if level >= 12 {
        LevelTone::Critical
    } else if level >= 8 {
        LevelTone::High
    } else if level >= 4 {
        LevelTone::Medium
    } else if level >= 1 {
        LevelTone::Low
    } else {
        LevelTone::Plain
    }
}

/// How the status bar is coloured.
#[derive(Debug, Clone, Copy, PartialEq, Eq, Structural)]
pub enum StatusTone {
    Busy,
    Error,
    Done,
    Plain,
}

/// A popup of `w` by `h` centred in an area of `area_w` by `area_h` that starts at the
/// origin: its `(x, y, w, h)`.
pub fn centered(area_w: u16, area_h: u16, w: u16, h: u16) -> (r: (u16, u16, u16, u16))
    ensures
        r.0 == (if area_w > w {
            area_w - w
        } else {
            0
        }) / 2,
        r.1 == (if area_h > h {
            area_h - h
        } else {
            0
        }) / 2,
        r.2 == w,
        r.3 == h,
{
    let x = if area_w > w {
        area_w - w
    } else {
        0
    };
    let y = if area_h > h {
        area_h - h
    } else {
        0
    };
    (x / 2, y / 2, w, h)
}

/// A popup size: at most `limit`, and four less than the area.
pub fn popup_extent(limit: u16, area: u16) -> (r: u16)
    ensures
        r == (if limit < (if area > 4 {
            area - 4
        } else {
            0
        }) {
            limit
        } else {
            (if area > 4 {
                area - 4
            } else {
                0
            }) as u16
        }),
{
    let room = if area > 4 {
        area - 4
    } else {
        0
    };
    if limit < room {
        limit
    } else {
        room
    }
}

/// The detail popup's size in an area of `area_w` by `area_h`: nine tenths of the
/// width, at least 40, and four fifths of the height, at least 10, within the area.
pub fn detail_extent(area_w: u16, area_h: u16) -> (r: (u16, u16))
    requires
        area_w * 9 <= u16::MAX,
        area_h * 4 <= u16::MAX,
    ensures
        ({
            let w0 = area_w * 9 / 10;
            let w1 = if w0 < 40 {
                40
            } else {
                w0
            };
            let h0 = area_h * 4 / 5;
            let h1 = if h0 < 10 {
                10
            } else {
                h0
            };
            &&& r.0 == (if w1 < area_w {
                w1
            } else {
                area_w as int
            })
            &&& r.1 == (if h1 < area_h {
                h1
            } else {
                area_h as int
            })
        }),
{
    let w0 = area_w * 9 / 10;
    let w1 = if w0 < 40 {
        40
    } else {
        w0
    };
    let h0 = area_h * 4 / 5;
    let h1 = if h0 < 10 {
        10
    } else {
        h0
    };
    (if w1 < area_w {
        w1
    } else {
        area_w
    }, if h1 < area_h {
        h1
    } else {
        area_h
    })
}

/// The title of the detail popup for `e`.
pub open spec fn detail_title_spec(e: Entry) -> Seq<char> {
    " "@ + e.agent@ + " · "@ + e.timestamp@ + " · Lvl "@ + decimal(e.level as nat)
        + "  (Esc close · ↑↓ scroll · PgUp/Dn) "@
}

/// The title of the detail popup for `e`.
pub fn detail_title(e: &Entry) -> (s: String)
    ensures
        s@ == detail_title_spec(*e),
{
    let mut s = owned(" ");
    push_str(&mut s, e.agent.as_str());
    push_str(&mut s, " · ");
    push_str(&mut s, e.timestamp.as_str());
    push_str(&mut s, " · Lvl ");
    push_decimal(&mut s, e.level as u128);
    push_str(&mut s, "  (Esc close · ↑↓ scroll · PgUp/Dn) ");
    assert(s@ =~= detail_title_spec(*e));
    s
}

/// The `i`-th line of the time range picker: a dot marks the active range.
pub fn time_range_item(i: usize, active_hours: u32) -> (s: String)
    requires
        i < TIME_RANGE_COUNT,
    ensures
        s@ == (if range_hours(i as int) == active_hours {
            "● "@
        } else {
            "  "@
        }) + range_label(i as int),
{
    let mut s = if crate::app::time_range_hours(i) == active_hours {
        owned("● ")
    } else {
        owned("  ")
    };
    push_str(&mut s, time_range_label(i));
    s
}

impl App {
    /// How the status bar is coloured: busy while analysing, else by what the status says.
    pub open spec fn status_tone_spec(&self) -> StatusTone {
        if self.is_analysing {
            StatusTone::Busy
        } else if crate::text::contains(self.status@, "Error"@) {
            StatusTone::Error
        } else if crate::text::contains(self.status@, "Exported"@) {
            StatusTone::Done
        } else {
            StatusTone::Plain
        }
    }

    /// How the status bar is coloured.
    pub fn status_tone(&self) -> (t: StatusTone)
        ensures
            t == self.status_tone_spec(),
    {
        if self.is_analysing {
            StatusTone::Busy
        } else if crate::text::has_substring(self.status.as_str(), "Error") {
            StatusTone::Error
        } else if crate::text::has_substring(self.status.as_str(), "Exported") {
            StatusTone::Done
        } else {
            StatusTone::Plain
        }
    }

    /// Whether the entry with id `id` is selected.
    pub fn is_selected(&self, id: &str) -> (b: bool)
        ensures
            b == self.selected().contains(id@),
    {
        let mut j: usize = 0;
        while j < self.selected_ids.len()
            invariant
                j <= self.selected_ids@.len(),
                forall|k: int| 0 <= k < j ==> self.selected_ids@[k]@ != id@,
            decreases self.selected_ids@.len() - j,
        {
            if same(self.selected_ids[j].as_str(), id) {
                assert(views(self.selected_ids@)[j as int] == id@);
                return true;
            }
            j = j + 1;
        }
        proof {
            if self.selected().contains(id@) {
                let k = choose|k: int| 0 <= k < views(self.selected_ids@).len() && views(self.selected_ids@)[k] == id@;
                assert(self.selected_ids@[k]@ == id@);
            }
        }
        false
    }

    /// The entry table's title.
    pub fn entries_title(&self) -> (s: String)
        ensures
            s@ == " Entries ("@ + decimal(self.entries@.len()) + " loaded / "@ + decimal(
                self.total_entries as nat,
            ) + " total) "@,
    {
        let mut s = owned(" Entries (");
        push_decimal(&mut s, self.entries.len() as u128);
        push_str(&mut s, " loaded / ");
        push_decimal(&mut s, self.total_entries as u128);
        push_str(&mut s, " total) ");
        s
    }

    /// The agent filter input line, with its cursor.
    pub fn agent_filter_line(&self) -> (s: String)
        ensures
            s@ == "> "@ + self.agent_filter_input@ + "█"@,
    {
        let mut s = owned("> ");
        push_str(&mut s, self.agent_filter_input.as_str());
        push_str(&mut s, "█");
        s
    }

    /// The title of the analysis panel.
    pub open spec fn analysis_title_spec(&self) -> Seq<char> {
        if self.is_analysing {
            " Analysis  ⟳ streaming… "@
        } else if self.history_view is Some {
            " Analysis  ["@ + decimal((self.history_view->0 + 1) as nat) + "/"@ + decimal(
                self.analysis_history@.len(),
            ) + "]  Tab for more "@
        } else if self.analysis_text@.len() == 0 {
            " Analysis  (select entries, press A) "@
        } else {
            " Analysis "@ + (if self.analysis_history@.len() > 0 {
                " · Tab = history "@
            } else {
                " "@
            })
        }
    }

    /// The title of the analysis panel.
    pub fn analysis_title(&self) -> (s: String)
        ensures
            s@ == self.analysis_title_spec(),
    {
        if self.is_analysing {
            owned(" Analysis  ⟳ streaming… ")
        } else if let Some(i) = self.history_view {
            let mut s = owned(" Analysis  [");
            push_decimal(&mut s, i as u128 + 1);
            push_str(&mut s, "/");
            push_decimal(&mut s, self.analysis_history.len() as u128);
            push_str(&mut s, "]  Tab for more ");
            s
        } else if self.analysis_text.as_str().is_empty() {
            owned(" Analysis  (select entries, press A) ")
        } else {
            let mut s = owned(" Analysis ");
            if self.analysis_history.len() > 0 {
                push_str(&mut s, " · Tab = history ");
            } else {
                push_str(&mut s, " ");
            }
            s
        }
    }

    /// The offset of the first analysis row in view, for `total` rows and a maximum
    /// offset `max_scroll`: the bottom while following the live analysis, else the
    /// bottom moved by the scroll offset, kept within the rows.
    pub open spec fn analysis_offset(&self, max_scroll: nat) -> nat {
        if self.analysis_auto_scroll && self.history_view is None {
            max_scroll
        } else {
            let from_top = max_scroll + self.analysis_scroll;
            if from_top < 0 {
                0
            } else if from_top > max_scroll {
                max_scroll
            } else {
                from_top as nat
            }
        }
    }

    /// The rows of the analysis panel in view at `inner_w` by `inner_h`; records the
    /// maximum scroll offset. Nothing is shown, and nothing recorded, when the panel has
    /// no room or there is no text.
    pub fn analysis_rows(&mut self, inner_w: usize, inner_h: usize) -> (rows: Vec<String>)
        ensures
            inner_h == 0 || inner_w == 0 || old(self).displayed().len() == 0 ==> {
                &&& *final(self) == *old(self)
                &&& rows@.len() == 0
            },
            !(inner_h == 0 || inner_w == 0 || old(self).displayed().len() == 0) ==> {
                let all = wrapped(old(self).displayed(), inner_w as nat);
                let max: nat = if all.len() > inner_h {
                    (all.len() - inner_h) as nat
                } else {
                    0
                };
                let first = old(self).analysis_offset(max);
                &&& all.len() <= usize::MAX
                &&& *final(self) == (App { analysis_max_scroll: max as usize, ..*old(self) })
                &&& views(rows@) == all.subrange(
                    first as int,
                    if first + inner_h < all.len() {
                        first + inner_h
                    } else {
                        all.len() as int
                    },
                )
            },
    {
        if inner_h == 0 || inner_w == 0 {
            return Vec::new();
        }
        let all = {
            let text = self.displayed_analysis();
            if text.is_empty() {
                return Vec::new();
            }
            word_wrap(text, inner_w)
        };
        let total = all.len();
        let max = if total > inner_h {
            total - inner_h
        } else {
            0
        };
        self.analysis_max_scroll = max;
        let first: usize = if self.analysis_auto_scroll && self.history_view.is_none() {
            max
        } else {
            let from_top: i128 = max as i128 + self.analysis_scroll as i128;
            if from_top < 0 {
                0
            } else if from_top > max as i128 {
                max
            } else {
                from_top as usize
            }
        };
        let end = if inner_h < total - first {
            first + inner_h
        } else {
            total
        };
        rows_between(&all, first, end)
    }

    /// The rows of the detail popup in view at `inner_w` by `inner_h`: the entry under
    /// the cursor as indented JSON, wrapped; records the maximum scroll offset.
    pub fn detail_rows(&mut self, inner_w: usize, inner_h: usize) -> (rows: Vec<String>)
        ensures
            inner_h == 0 || inner_w == 0 ==> *final(self) == *old(self) && rows@.len() == 0,
            !(inner_h == 0 || inner_w == 0) ==> {
                let json = match old(self).cursor_entry() {
                    Some(e) => source_pretty(e.raw@),
                    None => Seq::empty(),
                };
                let all = wrapped(json, inner_w as nat);
                let max: nat = if all.len() > inner_h {
                    (all.len() - inner_h) as nat
                } else {
                    0
                };
                let first: nat = if old(self).detail_scroll < max {
                    old(self).detail_scroll as nat
                } else {
                    max
                };
                &&& all.len() <= usize::MAX
                &&& *final(self) == (App { detail_max_scroll: max as usize, ..*old(self) })
                &&& views(rows@) == all.subrange(
                    first as int,
                    if first + inner_h < all.len() {
                        first + inner_h
                    } else {
                        all.len() as int
                    },
                )
            },
    {
        if inner_h == 0 || inner_w == 0 {
            return Vec::new();
        }
        let json = self.detail_json();
        let all = word_wrap(json.as_str(), inner_w);
        let total = all.len();
        let max = if total > inner_h {
            total - inner_h
        } else {
            0
        };
        self.detail_max_scroll = max;
        let first = if self.detail_scroll < max {
            self.detail_scroll
        } else {
            max
        };
        let end = if inner_h < total - first {
            first + inner_h
        } else {
            total
        };
        rows_between(&all, first, end)
    }
}

fn rows_between(all: &Vec<String>, from: usize, to: usize) -> (r: Vec<String>)
    requires
        from <= to <= all@.len(),
    ensures
        views(r@) == views(all@).subrange(from as int, to as int),
{
    let mut r: Vec<String> = Vec::new();
    let mut i = from;
    while i < to
        invariant
            from <= i <= to <= all@.len(),
            views(r@) == views(all@).subrange(from as int, i as int),
        decreases to - i,
    {
        let ghost before = views(r@);
        let c = all[i].clone();
        r.push(c);
        assert(views(r@) =~= before.push(all@[i as int]@));
        i = i + 1;
        assert(views(r@) =~= views(all@).subrange(from as int, i as int));
    }
    r
}

/// A truncated cell has at most `max` characters, for `max > 0`, and is unchanged
/// when it already fits.
pub proof fn lemma_truncated_fits(s: Seq<char>, max: nat)
    requires
        max > 0,
    ensures
        truncated(s, max).len() <= max,
        s.len() <= max ==> truncated(s, max) == s,
{
    reveal_strlit("…");
}

} // verus!
