use std::collections::VecDeque;
use vstd::prelude::*;
use vstd::utf8::{decode_utf8, valid_utf8};

use crate::selection::{pos_le, Position, Selection};
use crate::text::{
    chars_of, contains_clear_request, decode_text, has_clear_request, join_lines, line_scan, split_lines,
    string_of, strip_cr,
};

verus! {

broadcast use vstd::std_specs::vecdeque::group_vec_dequeue_axioms;

/// Most scrollback lines kept; older ones are dropped first.
pub const MAX_HISTORY_LINES: usize = 1000;

/// Most committed commands kept; older ones are dropped first.
pub const MAX_COMMAND_HISTORY: usize = 100;

/// An RGBA colour.
#[derive(Clone, Copy, Debug, PartialEq, Eq, Structural)]
pub struct Color {
    pub r: u8,
    pub g: u8,
    pub b: u8,
    pub a: u8,
}

impl Color {
    /// An opaque colour.
    pub fn rgb(r: u8, g: u8, b: u8) -> (c: Color)
        ensures
            c == (Color { r, g, b, a: 255 }),
    {
        Color { r, g, b, a: 255 }
    }
}

#[derive(Clone, Copy, Debug, PartialEq, Eq, Structural)]
pub struct TerminalColors {
    pub text: Color,
    pub background: Color,
    pub selection: Color,
    pub cursor: Color,
    pub input: Color,
}

pub open spec fn default_colors() -> TerminalColors {
    TerminalColors {
        text: Color { r: 0, g: 255, b: 170, a: 255 },
        background: Color { r: 10, g: 10, b: 30, a: 255 },
        selection: Color { r: 70, g: 70, b: 150, a: 255 },
        cursor: Color { r: 255, g: 255, b: 255, a: 255 },
        input: Color { r: 200, g: 200, b: 255, a: 255 },
    }
}

impl Default for TerminalColors {
    fn default() -> (r: Self)
        ensures
            r == default_colors(),
    {
        TerminalColors {
            text: Color::rgb(0, 255, 170),
            background: Color::rgb(10, 10, 30),
            selection: Color::rgb(70, 70, 150),
            cursor: Color::rgb(255, 255, 255),
            input: Color::rgb(200, 200, 255),
        }
    }
}

#[derive(Clone, Debug)]
pub struct TerminalSettings {
    pub font_size: u16,
    pub colors: TerminalColors,
    pub prompt: String,
}

impl Default for TerminalSettings {
    fn default() -> (r: Self)
        ensures
            r.font_size == 16,
            r.colors == default_colors(),
            r.prompt@ == seq!['$', ' '],
    {
        proof {
            reveal_strlit("$ ");
        }
        TerminalSettings {
            font_size: 16,
            colors: TerminalColors::default(),
            prompt: String::from_str("$ "),
        }
    }
}

/// Geometry of the window onto the scrollback; `offset` counts lines scrolled back
/// from the live tail.
#[derive(Clone, Copy, Debug, PartialEq, Eq, Structural)]
pub struct TerminalViewport {
    pub offset: usize,
    pub visible_lines: usize,
    pub line_height: u32,
    pub width: u32,
    pub height: u32,
}

/// Where command-history navigation stands: editing a fresh line, or showing an entry.
#[derive(Clone, Copy, Debug, PartialEq, Eq, Structural)]
pub enum HistoryCursor {
    Live,
    Browsing(usize),
}

/// Which entry a step back in the command history shows.
pub open spec fn key_up_index(nav: HistoryCursor, len: nat) -> nat {
    match nav {
        HistoryCursor::Live => (len - 1) as nat,
        HistoryCursor::Browsing(i) => if i > 0 {
            (i - 1) as nat
        } else {
            0
        },
    }
}

/// The last `n` items of `s` (all of them when there are no more than `n`).
pub open spec fn keep_last<A>(s: Seq<A>, n: nat) -> Seq<A> {
    if s.len() <= n {
        s
    } else {
        s.subrange(s.len() - n, s.len() as int)
    }
}

/// Rows of scrollback shown: one row of the window is kept for the input line.
pub open spec fn scrollback_rows(rows: nat) -> nat {
    if rows > 0 {
        (rows - 1) as nat
    } else {
        0
    }
}

/// The farthest the view can be scrolled back.
pub open spec fn max_scroll(len: nat, rows: nat) -> nat {
    if len > scrollback_rows(rows) {
        (len - scrollback_rows(rows)) as nat
    } else {
        0
    }
}

/// Offset after scrolling back `n` lines, clamped to the farthest point.
pub open spec fn scrolled_up(offset: nat, n: nat, len: nat, rows: nat) -> nat {
    if offset + n <= max_scroll(len, rows) {
        offset + n
    } else {
        max_scroll(len, rows)
    }
}

/// Offset after scrolling forward `n` lines, stopping at the live tail.
pub open spec fn scrolled_down(offset: nat, n: nat) -> nat {
    if offset >= n {
        (offset - n) as nat
    } else {
        0
    }
}

/// First scrollback index of the visible window.
pub open spec fn window_start(len: nat, rows: nat, offset: nat) -> nat {
    if len >= scrollback_rows(rows) + offset {
        (len - scrollback_rows(rows) - offset) as nat
    } else {
        0
    }
}

/// One past the last scrollback index of the visible window.
pub open spec fn window_end(len: nat, offset: nat) -> nat {
    if len >= offset {
        (len - offset) as nat
    } else {
        0
    }
}

/// The display state as mathematical values.
pub ghost struct TerminalModel {
    pub scrollback: Seq<Seq<char>>,
    pub input: Seq<char>,
    pub cursor: nat,
    pub commands: Seq<Seq<char>>,
    pub nav: HistoryCursor,
    pub viewport: TerminalViewport,
    pub selection: Option<Selection>,
    pub settings: TerminalSettings,
}

impl TerminalModel {
    pub open spec fn offset(self) -> nat {
        self.viewport.offset as nat
    }

    pub open spec fn rows(self) -> nat {
        self.viewport.visible_lines as nat
    }

    pub open spec fn wf(self) -> bool {
        &&& self.scrollback.len() <= MAX_HISTORY_LINES
        &&& self.commands.len() <= MAX_COMMAND_HISTORY
        &&& self.cursor == self.input.len()
        &&& self.offset() <= max_scroll(self.scrollback.len(), self.rows())
        &&& (self.nav matches HistoryCursor::Browsing(i) ==> i < self.commands.len())
    }

    /// The live input row: the prompt followed by what has been typed.
    pub open spec fn input_line(self) -> Seq<char> {
        self.settings.prompt@ + self.input
    }

    /// The scrollback lines in view.
    pub open spec fn window(self) -> Seq<Seq<char>> {
        self.scrollback.subrange(
            window_start(self.scrollback.len(), self.rows(), self.offset()) as int,
            window_end(self.scrollback.len(), self.offset()) as int,
        )
    }

    /// The rows on screen: the window, then the input row when pinned to the live tail.
    pub open spec fn visible_text(self) -> Seq<Seq<char>> {
        if self.offset() == 0 {
            self.window().push(self.input_line())
        } else {
            self.window()
        }
    }

    /// The colour of row `i` on screen.
    pub open spec fn row_color(self, i: int) -> Color {
        if i < self.window().len() {
            self.settings.colors.text
        } else {
            self.settings.colors.input
        }
    }

    /// The state after text from the shell is taken in.
    pub open spec fn after_output(self, text: Seq<char>) -> TerminalModel {
        if has_clear_request(text) {
            self.cleared()
        } else {
            TerminalModel {
                scrollback: keep_last(self.scrollback + split_lines(text), MAX_HISTORY_LINES as nat),
                selection: if self.offset() == 0 {
                    None
                } else {
                    self.selection
                },
                ..self
            }
        }
    }

    /// The state with command `i` loaded into the input line.
    pub open spec fn showing_command(self, i: nat) -> TerminalModel {
        TerminalModel {
            input: self.commands[i as int],
            cursor: self.commands[i as int].len(),
            nav: HistoryCursor::Browsing(i as usize),
            ..self
        }
    }

    /// The state after one step back in the command history.
    pub open spec fn after_key_up(self) -> TerminalModel {
        if self.commands.len() == 0 {
            self
        } else {
            self.showing_command(key_up_index(self.nav, self.commands.len()))
        }
    }

    /// The state after `k` steps back in the command history.
    pub open spec fn after_key_ups(self, k: nat) -> TerminalModel
        decreases k,
    {
        if k == 0 {
            self
        } else {
            self.after_key_ups((k - 1) as nat).after_key_up()
        }
    }

    /// The state after one step forward in the command history.
    pub open spec fn after_key_down(self) -> TerminalModel {
        match self.nav {
            HistoryCursor::Live => self,
            HistoryCursor::Browsing(i) => if i + 1 < self.commands.len() {
                self.showing_command((i + 1) as nat)
            } else {
                TerminalModel { input: Seq::empty(), cursor: 0, nav: HistoryCursor::Live, ..self }
            },
        }
    }

    /// The state after each text in turn is taken in from the shell.
    pub open spec fn after_outputs(self, texts: Seq<Seq<char>>) -> TerminalModel
        decreases texts.len(),
    {
        if texts.len() == 0 {
            self
        } else {
            self.after_outputs(texts.drop_last()).after_output(texts.last())
        }
    }

    /// The command history after the input line is submitted.
    pub open spec fn commands_after_commit(self) -> Seq<Seq<char>> {
        if self.input.len() > 0 {
            keep_last(self.commands.push(self.input), MAX_COMMAND_HISTORY as nat)
        } else {
            self.commands
        }
    }

    /// The state after the input line is submitted.
    pub open spec fn committed(self) -> TerminalModel {
        let echoed = TerminalModel {
            input: Seq::empty(),
            cursor: 0,
            commands: self.commands_after_commit(),
            nav: HistoryCursor::Live,
            ..self
        }.after_output(self.settings.prompt@ + self.input + seq!['\n']);
        TerminalModel { selection: None, ..echoed }
    }

    /// The same state with the scrollback wiped and the view back at the live tail.
    pub open spec fn cleared(self) -> TerminalModel {
        TerminalModel {
            scrollback: Seq::empty(),
            viewport: TerminalViewport { offset: 0, ..self.viewport },
            selection: None,
            ..self
        }
    }
}

/// A visible row and column, the column clamped to the row's length.
pub open spec fn clamped_position(text: Seq<Seq<char>>, line: usize, column: usize) -> Position {
    Position {
        line,
        column: if column < text[line as int].len() {
            column
        } else {
            text[line as int].len() as usize
        },
    }
}

/// The part of row `i` that a selection from `a` to `b` covers: from `a`'s column on its
/// first row, up to `b`'s column on its last row, columns clamped to the row's length.
pub open spec fn piece(line: Seq<char>, i: int, a: Position, b: Position) -> Seq<char> {
    let lo = if i == a.line { a.column as int } else { 0 };
    let hi = if i == b.line { b.column as int } else { line.len() as int };
    let lo = if lo < line.len() { lo } else { line.len() as int };
    let hi = if hi < line.len() { hi } else { line.len() as int };
    if lo <= hi {
        line.subrange(lo, hi)
    } else {
        Seq::empty()
    }
}

/// The covered parts of the rows from `a.line` to `b.line` that exist.
pub open spec fn selected_pieces(text: Seq<Seq<char>>, a: Position, b: Position) -> Seq<Seq<char>> {
    if a.line >= text.len() {
        Seq::empty()
    } else {
        let last: int = if b.line < text.len() { b.line as int } else { text.len() - 1 };
        Seq::new(
            (last + 1 - a.line) as nat,
            |k: int| piece(text[a.line + k], a.line + k, a, b),
        )
    }
}

/// The text a selection covers on the given rows, rows joined by line breaks.
pub open spec fn selected_text(text: Seq<Seq<char>>, sel: Selection) -> Seq<char> {
    let (a, b) = sel.spec_normalize();
    join_lines(selected_pieces(text, a, b))
}

/// The characters of each stored line.
pub open spec fn line_views(q: Seq<String>) -> Seq<Seq<char>> {
    q.map_values(|s: String| s@)
}

pub struct TerminalState {
    history: VecDeque<String>,
    current_input: Vec<char>,
    cursor_position: usize,
    settings: TerminalSettings,
    viewport: TerminalViewport,
    selection: Option<Selection>,
    command_history: VecDeque<String>,
    nav: HistoryCursor,
}

impl View for TerminalState {
    type V = TerminalModel;

    closed spec fn view(&self) -> TerminalModel {
        TerminalModel {
            scrollback: line_views(self.history@),
            input: self.current_input@,
            cursor: self.cursor_position as nat,
            commands: line_views(self.command_history@),
            nav: self.nav,
            viewport: self.viewport,
            selection: self.selection,
            settings: self.settings,
        }
    }
}

proof fn lemma_keep_last_push<A>(s: Seq<A>, x: A, n: nat)
    requires
        n > 0,
    ensures
        keep_last(keep_last(s, n).push(x), n) == keep_last(s.push(x), n),
{
    if s.len() > n {
        assert(keep_last(keep_last(s, n).push(x), n) =~= keep_last(s.push(x), n));
    }
}

impl TerminalState {
    pub open spec fn wf(&self) -> bool {
        self@.wf()
    }

    /// A fresh state for a window of the given size in pixels.
    pub fn new(width: u32, height: u32, line_height: u32) -> (r: Self)
        requires
            line_height > 0,
        ensures
            r.wf(),
            r@.scrollback.len() == 0,
            r@.input.len() == 0,
            r@.commands.len() == 0,
            r@.nav == HistoryCursor::Live,
            r@.selection is None,
            r@.viewport == (TerminalViewport {
                offset: 0,
                visible_lines: (height / line_height) as usize,
                line_height,
                width,
                height,
            }),
            r@.settings.font_size == 16,
            r@.settings.colors == default_colors(),
            r@.settings.prompt@ == seq!['$', ' '],
    {
        let visible_lines = (height / line_height) as usize;
        let r = TerminalState {
            history: VecDeque::with_capacity(MAX_HISTORY_LINES),
            current_input: Vec::new(),
            cursor_position: 0,
            settings: TerminalSettings::default(),
            viewport: TerminalViewport { offset: 0, visible_lines, line_height, width, height },
            selection: None,
            command_history: VecDeque::with_capacity(MAX_COMMAND_HISTORY),
            nav: HistoryCursor::Live,
        };
        assert(r@.scrollback =~= Seq::empty());
        assert(r@.commands =~= Seq::empty());
        r
    }

    pub fn clear_selection(&mut self)
        ensures
            final(self)@ == (TerminalModel { selection: None, ..old(self)@ }),
    {
        self.selection = None;
    }

    pub fn get_selection(&self) -> (r: Option<&Selection>)
        ensures
            r == match self@.selection {
                Some(s) => Some(&s),
                None => None::<&Selection>,
            },
    {
        self.selection.as_ref()
    }

    pub fn get_viewport(&self) -> (r: &TerminalViewport)
        ensures
            *r == self@.viewport,
    {
        &self.viewport
    }

    pub fn get_settings(&self) -> (r: &TerminalSettings)
        ensures
            *r == self@.settings,
    {
        &self.settings
    }

    /// Wipes the scrollback and returns the view to the live tail.
    pub fn clear(&mut self)
        requires
            old(self).wf(),
        ensures
            final(self).wf(),
            final(self)@ == old(self)@.cleared(),
    {
        self.history.clear();
        self.viewport.offset = 0;
        self.clear_selection();
        assert(self@.scrollback =~= Seq::<Seq<char>>::empty());
    }

    /// Scrolls back `lines` lines, no farther than the oldest line allows.
    pub fn scroll_up(&mut self, lines: usize)
        requires
            old(self).wf(),
        ensures
            final(self).wf(),
            final(self)@ == (TerminalModel {
                viewport: TerminalViewport {
                    offset: scrolled_up(
                        old(self)@.offset(),
                        lines as nat,
                        old(self)@.scrollback.len(),
                        old(self)@.rows(),
                    ) as usize,
                    ..old(self)@.viewport
                },
                selection: None,
                ..old(self)@
            }),
    {
        let rows = if self.viewport.visible_lines > 0 {
            self.viewport.visible_lines - 1
        } else {
            0
        };
        let max_scroll = if self.history.len() > rows {
            self.history.len() - rows
        } else {
            0
        };
        if lines <= max_scroll - self.viewport.offset {
            self.viewport.offset = self.viewport.offset + lines;
        } else {
            self.viewport.offset = max_scroll;
        }
        self.clear_selection();
    }

    /// Scrolls forward `lines` lines, stopping at the live tail.
    pub fn scroll_down(&mut self, lines: usize)
        requires
            old(self).wf(),
        ensures
            final(self).wf(),
            final(self)@ == (TerminalModel {
                viewport: TerminalViewport {
                    offset: scrolled_down(old(self)@.offset(), lines as nat) as usize,
                    ..old(self)@.viewport
                },
                selection: None,
                ..old(self)@
            }),
    {
        if self.viewport.offset >= lines {
            self.viewport.offset = self.viewport.offset - lines;
        } else {
            self.viewport.offset = 0;
        }
        self.clear_selection();
    }

    /// Returns the view to the live tail.
    pub fn scroll_to_bottom(&mut self)
        requires
            old(self).wf(),
        ensures
            final(self).wf(),
            final(self)@ == (TerminalModel {
                viewport: TerminalViewport { offset: 0, ..old(self)@.viewport },
                selection: None,
                ..old(self)@
            }),
    {
        self.viewport.offset = 0;
        self.clear_selection();
    }

    fn get_visible_range(&self) -> (r: (usize, usize))
        requires
            self.wf(),
        ensures
            r.0 == window_start(self@.scrollback.len(), self@.rows(), self@.offset()),
            r.1 == window_end(self@.scrollback.len(), self@.offset()),
            r.0 <= r.1 <= self@.scrollback.len(),
    {
        let total = self.history.len();
        let rows = if self.viewport.visible_lines > 0 {
            self.viewport.visible_lines - 1
        } else {
            0
        };
        let offset = self.viewport.offset;
        let end = if total >= offset {
            total - offset
        } else {
            0
        };
        let start = if end >= rows {
            end - rows
        } else {
            0
        };
        (start, end)
    }

    /// The rows on screen, each with its colour.
    pub fn get_visible_content(&self) -> (r: Vec<(String, Color)>)
        requires
            self.wf(),
        ensures
            r@.len() == self@.visible_text().len(),
            forall|i: int|
                0 <= i < r@.len() ==> (#[trigger] r@[i]).0@ == self@.visible_text()[i] && r@[i].1
                    == self@.row_color(i),
    {
        let (start, end) = self.get_visible_range();
        let ghost window = self@.window();
        let mut result: Vec<(String, Color)> = Vec::new();
        let mut i: usize = start;
        while i < end
            invariant
                start <= i <= end <= self@.scrollback.len(),
                window == self@.window(),
                window.len() == end - start,
                window == self@.scrollback.subrange(start as int, end as int),
                result@.len() == i - start,
                forall|k: int|
                    0 <= k < result@.len() ==> (#[trigger] result@[k]).0@ == window[k]
                        && result@[k].1 == self.settings.colors.text,
            decreases end - i,
        {
            result.push((self.history[i].clone(), self.settings.colors.text));
            i = i + 1;
        }
        if self.viewport.offset == 0 {
            let mut row = chars_of(self.settings.prompt.as_str());
            let mut k: usize = 0;
            while k < self.current_input.len()
                invariant
                    k <= self.current_input@.len(),
                    row@ == self.settings.prompt@ + self.current_input@.subrange(0, k as int),
                decreases self.current_input@.len() - k,
            {
                row.push(self.current_input[k]);
                k = k + 1;
                assert(row@ =~= self.settings.prompt@ + self.current_input@.subrange(0, k as int));
            }
            assert(self.current_input@.subrange(0, k as int) =~= self.current_input@);
            result.push((string_of(row.as_slice()), self.settings.colors.input));
        }
        result
    }

    fn push_line(&mut self, line: String)
        requires
            old(self).wf(),
        ensures
            final(self).wf(),
            final(self)@ == (TerminalModel {
                scrollback: keep_last(
                    old(self)@.scrollback.push(line@),
                    MAX_HISTORY_LINES as nat,
                ),
                ..old(self)@
            }),
    {
        let ghost before = self.history@;
        if self.history.len() >= MAX_HISTORY_LINES {
            self.history.pop_front();
        }
        self.history.push_back(line);
        proof {
            let old_lines = line_views(before);
            if before.len() >= MAX_HISTORY_LINES {
                assert(line_views(self.history@) =~= keep_last(
                    old_lines.push(line@),
                    MAX_HISTORY_LINES as nat,
                ));
            } else {
                assert(line_views(self.history@) =~= old_lines.push(line@));
            }
        }
    }

    /// Takes in text from the shell: a clear request wipes the scrollback; otherwise each
    /// line is appended, and a view pinned to the live tail stays pinned.
    pub fn add_output(&mut self, output: &str)
        requires
            old(self).wf(),
        ensures
            final(self).wf(),
            final(self)@ == old(self)@.after_output(output@),
    {
        let text = chars_of(output);
        if contains_clear_request(&text) {
            self.clear();
            return;
        }
        let ghost start = self@;
        let ghost cap = MAX_HISTORY_LINES as nat;
        let mut line: Vec<char> = Vec::new();
        let mut i: usize = 0;
        while i < text.len()
            invariant
                i <= text@.len(),
                cap == MAX_HISTORY_LINES as nat,
                self.wf(),
                self@ == (TerminalModel {
                    scrollback: keep_last(
                        start.scrollback + line_scan(text@.subrange(0, i as int)).0,
                        cap,
                    ),
                    ..start
                }),
                line@ == line_scan(text@.subrange(0, i as int)).1,
            decreases text@.len() - i,
        {
            let ghost prefix = text@.subrange(0, i as int);
            let ghost done = line_scan(prefix).0;
            let ghost next = text@.subrange(0, i + 1);
            assert(next.drop_last() =~= prefix);
            let c = text[i];
            assert(next.last() == c);
            if c == '\n' {
                if line.len() > 0 && line[line.len() - 1] == '\r' {
                    line.pop();
                }
                assert(line@ == strip_cr(line_scan(prefix).1));
                let s = string_of(line.as_slice());
                self.push_line(s);
                proof {
                    lemma_keep_last_push(start.scrollback + done, s@, cap);
                    assert(start.scrollback + done.push(s@) =~= (start.scrollback + done).push(s@));
                }
                line = Vec::new();
            } else {
                line.push(c);
            }
            i = i + 1;
        }
        assert(text@.subrange(0, i as int) =~= text@);
        if line.len() > 0 {
            let ghost done = line_scan(text@).0;
            let s = string_of(line.as_slice());
            self.push_line(s);
            proof {
                lemma_keep_last_push(start.scrollback + done, s@, cap);
                assert(start.scrollback + done.push(s@) =~= (start.scrollback + done).push(s@));
            }
        }
        if self.viewport.offset == 0 {
            self.scroll_to_bottom();
        }
    }


    fn load_command(&mut self, index: usize)
        requires
            old(self).wf(),
            index < old(self)@.commands.len(),
        ensures
            final(self).wf(),
            final(self)@ == (TerminalModel {
                input: old(self)@.commands[index as int],
                cursor: old(self)@.commands[index as int].len(),
                nav: HistoryCursor::Browsing(index),
                ..old(self)@
            }),
    {
        self.current_input = chars_of(self.command_history[index].as_str());
        self.cursor_position = self.current_input.len();
        self.nav = HistoryCursor::Browsing(index);
    }

    /// Steps back to an older command: from a fresh line to the newest entry, then one
    /// older each time, stopping at the oldest. The entry replaces the input line.
    pub fn handle_key_up(&mut self)
        requires
            old(self).wf(),
        ensures
            final(self).wf(),
            final(self)@ == old(self)@.after_key_up(),
    {
        let len = self.command_history.len();
        if len == 0 {
            return;
        }
        let index = match self.nav {
            HistoryCursor::Live => len - 1,
            HistoryCursor::Browsing(i) => if i > 0 {
                i - 1
            } else {
                0
            },
        };
        self.load_command(index);
    }

    /// Steps forward to a newer command; past the newest, the input line is emptied and
    /// browsing ends. Does nothing on a fresh line.
    pub fn handle_key_down(&mut self)
        requires
            old(self).wf(),
        ensures
            final(self).wf(),
            final(self)@ == old(self)@.after_key_down(),
    {
        match self.nav {
            HistoryCursor::Live => {},
            HistoryCursor::Browsing(i) => {
                if i + 1 < self.command_history.len() {
                    self.load_command(i + 1);
                } else {
                    self.current_input = Vec::new();
                    self.cursor_position = 0;
                    self.nav = HistoryCursor::Live;
                }
            },
        }
    }

    /// Appends typed text to the input line, leaves history browsing and drops the selection.
    pub fn add_input(&mut self, input: &str)
        requires
            old(self).wf(),
        ensures
            final(self).wf(),
            final(self)@ == (TerminalModel {
                input: old(self)@.input + input@,
                cursor: old(self)@.cursor + input@.len(),
                nav: HistoryCursor::Live,
                selection: None,
                ..old(self)@
            }),
    {
        self.nav = HistoryCursor::Live;
        self.selection = None;
        let added = chars_of(input);
        let mut k: usize = 0;
        while k < added.len()
            invariant
                k <= added@.len(),
                self.current_input@ == old(self)@.input + added@.subrange(0, k as int),
                self.history == old(self).history,
                self.command_history == old(self).command_history,
                self.settings == old(self).settings,
                self.viewport == old(self).viewport,
                self.selection is None,
                self.nav == HistoryCursor::Live,
            decreases added@.len() - k,
        {
            self.current_input.push(added[k]);
            k = k + 1;
            assert(self.current_input@ =~= old(self)@.input + added@.subrange(0, k as int));
        }
        assert(added@.subrange(0, k as int) =~= added@);
        self.cursor_position = self.current_input.len();
    }

    /// Removes the character before the cursor, if any; such an edit leaves history browsing
    /// and drops the selection.
    pub fn handle_backspace(&mut self)
        requires
            old(self).wf(),
        ensures
            final(self).wf(),
            old(self)@.cursor == 0 ==> final(self)@ == old(self)@,
            old(self)@.cursor > 0 ==> final(self)@ == (TerminalModel {
                input: old(self)@.input.drop_last(),
                cursor: (old(self)@.cursor - 1) as nat,
                nav: HistoryCursor::Live,
                selection: None,
                ..old(self)@
            }),
    {
        if self.cursor_position > 0 {
            self.current_input.pop();
            self.cursor_position = self.cursor_position - 1;
            self.nav = HistoryCursor::Live;
            self.selection = None;
        }
    }

    /// Submits the input line: a non-empty line joins the command history, the prompt and
    /// line are echoed to the scrollback, and the input, browsing and selection reset.
    pub fn commit_input(&mut self)
        requires
            old(self).wf(),
        ensures
            final(self).wf(),
            final(self)@ == old(self)@.committed(),
    {
        let mut input: Vec<char> = Vec::new();
        std::mem::swap(&mut input, &mut self.current_input);
        self.cursor_position = 0;
        self.nav = HistoryCursor::Live;
        if input.len() > 0 {
            let ghost before = self.command_history@;
            self.command_history.push_back(string_of(input.as_slice()));
            if self.command_history.len() > MAX_COMMAND_HISTORY {
                self.command_history.pop_front();
            }
            assert(line_views(self.command_history@) =~= keep_last(
                line_views(before).push(input@),
                MAX_COMMAND_HISTORY as nat,
            ));
        }
        let mut echo = chars_of(self.settings.prompt.as_str());
        let mut k: usize = 0;
        while k < input.len()
            invariant
                k <= input@.len(),
                echo@ == self.settings.prompt@ + input@.subrange(0, k as int),
            decreases input@.len() - k,
        {
            echo.push(input[k]);
            k = k + 1;
            assert(echo@ =~= self.settings.prompt@ + input@.subrange(0, k as int));
        }
        echo.push('\n');
        assert(echo@ =~= self.settings.prompt@ + input@ + seq!['\n']);
        let echo_text = string_of(echo.as_slice());
        self.add_output(echo_text.as_str());
        self.clear_selection();
    }


    fn visible_line_len(content: &Vec<(String, Color)>, line: usize) -> (r: usize)
        requires
            line < content@.len(),
        ensures
            r == content@[line as int].0@.len(),
    {
        let chars = chars_of(content[line].0.as_str());
        chars.len()
    }

    /// Anchors a new selection at a visible row, its column clamped to the row's length.
    /// A row past the end of the visible content is ignored.
    pub fn start_selection(&mut self, line: usize, column: usize)
        requires
            old(self).wf(),
        ensures
            final(self).wf(),
            line >= old(self)@.visible_text().len() ==> final(self)@ == old(self)@,
            line < old(self)@.visible_text().len() ==> final(self)@ == (TerminalModel {
                selection: Some(
                    Selection {
                        start: clamped_position(old(self)@.visible_text(), line, column),
                        end: clamped_position(old(self)@.visible_text(), line, column),
                    },
                ),
                ..old(self)@
            }),
    {
        let content = self.get_visible_content();
        if line >= content.len() {
            return;
        }
        let len = Self::visible_line_len(&content, line);
        let bounded_column = if column < len {
            column
        } else {
            len
        };
        self.selection = Some(Selection::new(line, bounded_column));
    }

    /// Moves the free end of the active selection, clamping the row to the visible content
    /// and the column to that row's length.
    pub fn update_selection(&mut self, line: usize, column: usize)
        requires
            old(self).wf(),
        ensures
            final(self).wf(),
            final(self)@ == match old(self)@.selection {
                Some(s) => if old(self)@.visible_text().len() > 0 {
                    TerminalModel {
                        selection: Some(
                            Selection {
                                start: s.start,
                                end: clamped_position(
                                    old(self)@.visible_text(),
                                    if line < old(self)@.visible_text().len() {
                                        line
                                    } else {
                                        (old(self)@.visible_text().len() - 1) as usize
                                    },
                                    column,
                                ),
                            },
                        ),
                        ..old(self)@
                    }
                } else {
                    old(self)@
                },
                None => old(self)@,
            },
    {
        let content = self.get_visible_content();
        if content.len() == 0 {
            return;
        }
        match self.selection {
            None => {},
            Some(s) => {
                let bounded_line = if line < content.len() {
                    line
                } else {
                    content.len() - 1
                };
                let len = Self::visible_line_len(&content, bounded_line);
                let bounded_column = if column < len {
                    column
                } else {
                    len
                };
                self.selection = Some(
                    Selection {
                        start: s.start,
                        end: Position { line: bounded_line, column: bounded_column },
                    },
                );
            },
        }
    }

    /// The text under the active selection, or an empty string when there is none.
    pub fn get_selected_text(&self) -> (r: String)
        requires
            self.wf(),
        ensures
            r@ == match self@.selection {
                Some(s) => selected_text(self@.visible_text(), s),
                None => Seq::empty(),
            },
    {
        match &self.selection {
            Some(selection) => self.get_text_from_selection(selection),
            None => String::new(),
        }
    }

    fn get_text_from_selection(&self, selection: &Selection) -> (r: String)
        requires
            self.wf(),
        ensures
            r@ == selected_text(self@.visible_text(), *selection),
    {
        let content = self.get_visible_content();
        let ghost text = self@.visible_text();
        let (a, b) = selection.normalize();
        let mut result: Vec<char> = Vec::new();
        if a.line >= content.len() {
            return string_of(result.as_slice());
        }
        let end = if b.line < content.len() {
            b.line + 1
        } else {
            content.len()
        };
        let ghost pieces = selected_pieces(text, a, b);
        let mut i: usize = a.line;
        while i < end
            invariant
                a.line <= i <= end <= content@.len(),
                a.line < end,
                pos_le(a, b),
                (a, b) == selection.spec_normalize(),
                text == self@.visible_text(),
                text.len() == content@.len(),
                forall|k: int| 0 <= k < content@.len() ==> (#[trigger] content@[k]).0@ == text[k],
                pieces == selected_pieces(text, a, b),
                pieces.len() == end - a.line,
                result@ == join_lines(pieces.subrange(0, i - a.line)),
            decreases end - i,
        {
            let line = chars_of(content[i].0.as_str());
            assert(line@ == text[i as int]);
            let lo0 = if i == a.line {
                a.column
            } else {
                0
            };
            let hi0 = if i == b.line {
                b.column
            } else {
                line.len()
            };
            let lo = if lo0 < line.len() {
                lo0
            } else {
                line.len()
            };
            let hi = if hi0 < line.len() {
                hi0
            } else {
                line.len()
            };
            let ghost before = result@;
            if i > a.line {
                result.push('\n');
            }
            let mut k: usize = lo;
            while k < hi
                invariant
                    lo <= hi <= line@.len(),
                    lo <= k <= hi || hi < lo,
                    i > a.line ==> result@ == before + seq!['\n'] + line@.subrange(lo as int, k as int),
                    i == a.line ==> result@ == before + line@.subrange(lo as int, k as int),
                decreases hi - k,
            {
                result.push(line[k]);
                k = k + 1;
                assert(i > a.line ==> result@ =~= before + seq!['\n'] + line@.subrange(lo as int, k as int));
                assert(i == a.line ==> result@ =~= before + line@.subrange(lo as int, k as int));
            }
            proof {
                let p = pieces.subrange(0, i - a.line);
                let q = pieces.subrange(0, i + 1 - a.line);
                assert(q.drop_last() =~= p);
                assert(q.last() == piece(text[i as int], i as int, a, b));
                if hi < lo {
                    assert(line@.subrange(lo as int, lo as int) =~= Seq::<char>::empty());
                }
                if i == a.line {
                    assert(before =~= Seq::<char>::empty());
                    assert(result@ =~= q[0]);
                } else {
                    assert(result@ =~= join_lines(p) + seq!['\n'] + q.last());
                }
            }
            i = i + 1;
        }
        assert(pieces.subrange(0, i - a.line) =~= pieces);
        string_of(result.as_slice())
    }


    /// Takes in a drained chunk of raw shell output. Valid UTF-8 is taken in as text; an
    /// empty chunk, or one that does not decode, changes nothing.
    pub fn add_output_bytes(&mut self, bytes: Vec<u8>)
        requires
            old(self).wf(),
        ensures
            final(self).wf(),
            bytes@.len() > 0 && valid_utf8(bytes@) ==> final(self)@ == old(self)@.after_output(
                decode_utf8(bytes@),
            ),
            !(bytes@.len() > 0 && valid_utf8(bytes@)) ==> final(self)@ == old(self)@,
    {
        if bytes.len() == 0 {
            return;
        }
        match decode_text(bytes) {
            Some(text) => self.add_output(text.as_str()),
            None => {},
        }
    }

}

/// Taking in text never grows the scrollback past its capacity. Without a clear request,
/// the scrollback becomes the newest lines of the old scrollback followed by the new lines,
/// in order: once full, the oldest lines are the ones dropped.
pub proof fn lemma_output_keeps_newest_lines(m: TerminalModel, text: Seq<char>)
    requires
        m.wf(),
    ensures
        m.after_output(text).wf(),
        m.after_output(text).scrollback.len() <= MAX_HISTORY_LINES,
        !has_clear_request(text) ==> {
            let all = m.scrollback + split_lines(text);
            let kept = m.after_output(text).scrollback;
            &&& kept.len() == if all.len() <= MAX_HISTORY_LINES {
                all.len()
            } else {
                MAX_HISTORY_LINES as nat
            }
            &&& kept == all.subrange(all.len() - kept.len(), all.len() as int)
        },
{
    if !has_clear_request(text) {
        let all = m.scrollback + split_lines(text);
        assert(keep_last(all, MAX_HISTORY_LINES as nat).len() >= m.scrollback.len());
        if all.len() <= MAX_HISTORY_LINES {
            assert(all.subrange(0, all.len() as int) =~= all);
        }
    }
}

/// Over any run of texts taken in, the state stays well formed, so the scrollback never
/// holds more than its capacity.
pub proof fn lemma_outputs_stay_bounded(m: TerminalModel, texts: Seq<Seq<char>>)
    requires
        m.wf(),
    ensures
        m.after_outputs(texts).wf(),
        m.after_outputs(texts).scrollback.len() <= MAX_HISTORY_LINES,
    decreases texts.len(),
{
    if texts.len() > 0 {
        lemma_outputs_stay_bounded(m, texts.drop_last());
        lemma_output_keeps_newest_lines(m.after_outputs(texts.drop_last()), texts.last());
    }
}

/// A clear request empties the scrollback and returns the view to the live tail, whatever
/// came before.
pub proof fn lemma_clear_request_resets(m: TerminalModel, text: Seq<char>)
    requires
        has_clear_request(text),
    ensures
        m.after_output(text).scrollback.len() == 0,
        m.after_output(text).offset() == 0,
        m.after_output(text).selection is None,
{
}

/// Scrolling back `n` lines and then forward `n` lines returns to the starting offset when
/// the way back was not cut short by the oldest line.
pub proof fn lemma_scroll_round_trip(offset: nat, n: nat, len: nat, rows: nat)
    requires
        offset + n <= max_scroll(len, rows),
    ensures
        scrolled_down(scrolled_up(offset, n, len, rows), n) == offset,
{
}

/// With at least one row on screen, the rows shown never outnumber the rows of the
/// window, and the input row is the last of them exactly when the view is at the live tail;
/// scrolled back, every row shown is a scrollback line.
pub proof fn lemma_visible_rows(m: TerminalModel)
    requires
        m.wf(),
        m.rows() >= 1,
    ensures
        m.visible_text().len() <= m.rows(),
        m.offset() == 0 ==> m.visible_text().len() == m.window().len() + 1
            && m.visible_text().last() == m.input_line(),
        m.offset() != 0 ==> m.visible_text() == m.window(),
{
}

/// Submitting an empty line leaves the command history as it was; a non-empty line is
/// added as the newest entry, and when that passes the capacity the oldest entry goes.
pub proof fn lemma_commit_history(m: TerminalModel)
    requires
        m.wf(),
    ensures
        m.input.len() == 0 ==> m.committed().commands == m.commands,
        m.input.len() > 0 && m.commands.len() < MAX_COMMAND_HISTORY ==> m.committed().commands
            == m.commands.push(m.input),
        m.input.len() > 0 && m.commands.len() == MAX_COMMAND_HISTORY ==> m.committed().commands
            == m.commands.subrange(1, m.commands.len() as int).push(m.input),
        m.committed().commands.len() <= MAX_COMMAND_HISTORY,
{
    if m.input.len() > 0 && m.commands.len() == MAX_COMMAND_HISTORY {
        assert(keep_last(m.commands.push(m.input), MAX_COMMAND_HISTORY as nat) =~= m.commands.subrange(
            1,
            m.commands.len() as int,
        ).push(m.input));
    }
}

/// From a fresh line, `k` steps back show the `k`-th newest command (the oldest once `k`
/// passes the length), loaded whole into the input line; the stored commands are never
/// changed.
pub proof fn lemma_key_ups_walk_back(m: TerminalModel, k: nat)
    requires
        m.wf(),
        m.nav == HistoryCursor::Live,
        m.commands.len() > 0,
        k >= 1,
    ensures
        ({
            let len = m.commands.len();
            let i: nat = if k <= len {
                (len - k) as nat
            } else {
                0
            };
            let r = m.after_key_ups(k);
            &&& r.nav == HistoryCursor::Browsing(i as usize)
            &&& r.input == m.commands[i as int]
            &&& r.commands == m.commands
            &&& r.wf()
        }),
    decreases k,
{
    let len = m.commands.len();
    if k == 1 {
        assert(m.after_key_ups(0) == m);
        assert(m.after_key_ups(1) == m.after_key_up());
    } else {
        lemma_key_ups_walk_back(m, (k - 1) as nat);
        let prev = m.after_key_ups((k - 1) as nat);
        let j: nat = if k - 1 <= len {
            (len - (k - 1)) as nat
        } else {
            0
        };
        assert(prev.nav == HistoryCursor::Browsing(j as usize));
        assert(m.after_key_ups(k) == prev.after_key_up());
        assert(key_up_index(prev.nav, len) == if j > 0 {
            (j - 1) as nat
        } else {
            0
        });
    }
}

/// A step forward from the newest command empties the input line and ends browsing.
pub proof fn lemma_key_down_past_newest(m: TerminalModel)
    requires
        m.wf(),
        m.commands.len() > 0,
        m.nav == HistoryCursor::Browsing((m.commands.len() - 1) as usize),
    ensures
        m.after_key_down().input == Seq::<char>::empty(),
        m.after_key_down().nav == HistoryCursor::Live,
        m.after_key_down().commands == m.commands,
{
}

/// On a selection within one row, the selected text is the stretch of that row between
/// the two columns, whichever way the drag went.
pub proof fn lemma_single_row_selection(text: Seq<Seq<char>>, sel: Selection)
    requires
        sel.start.line == sel.end.line,
        sel.start.line < text.len(),
        sel.start.column <= text[sel.start.line as int].len(),
        sel.end.column <= text[sel.start.line as int].len(),
    ensures
        ({
            let lo = if sel.start.column <= sel.end.column {
                sel.start.column
            } else {
                sel.end.column
            };
            let hi = if sel.start.column <= sel.end.column {
                sel.end.column
            } else {
                sel.start.column
            };
            selected_text(text, sel) == text[sel.start.line as int].subrange(lo as int, hi as int)
        }),
{
    let (a, b) = sel.spec_normalize();
    let pieces = selected_pieces(text, a, b);
    assert(pieces.len() == 1);
}

} // verus!
