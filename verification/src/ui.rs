//! The screen as plain values: where each pane lies, what a key or a mouse
//! event asks the agent to do, and what the panes show. Drawing itself is
//! left to the terminal front end.
use vstd::prelude::*;

use crate::app::{App, TranscriptItem};
use crate::text::{
    byte_offset, char_index_of, chars_of, is_boundary, lines,
    offset_of_char, split_lines, str_contains, str_eq, string_from_range, string_len,
    strings_view, to_lowercase, trim, trim_bounds, trim_end, trim_end_len, unicode_lowercase,
    utf8_len,
};
use ratatui::layout::{Constraint, Direction, Layout, Rect};

verus! {

/// A rectangle of terminal cells.
#[derive(Debug, Clone, Copy, PartialEq, Eq)]
pub struct Area {
    pub x: u16,
    pub y: u16,
    pub width: u16,
    pub height: u16,
}

/// The size rule of one pane of a split.
#[derive(Debug, Clone, Copy, PartialEq, Eq)]
pub enum LayoutConstraint {
    /// A pane asked to be this many cells long.
    Length(u16),
    /// A pane asked to be at least this many cells long.
    Min(u16),
}

/// `pane` is one of the panes of `area` split top to bottom (when
/// `vertical`) or left to right: it spans the area across the split and lies
/// within it along the split.
pub open spec fn pane_of(pane: Area, area: Area, vertical: bool) -> bool {
    if vertical {
        &&& pane.x == area.x
        &&& pane.width == area.width
        &&& pane.y >= area.y
        &&& pane.y + pane.height <= sat_add16(area.y, area.height)
    } else {
        &&& pane.y == area.y
        &&& pane.height == area.height
        &&& pane.x >= area.x
        &&& pane.x + pane.width <= sat_add16(area.x, area.width)
    }
}

/// Splits `area` by `ratatui::layout::Layout::split` (no margin), top to
/// bottom when `vertical`, else left to right: one pane per constraint, each
/// spanning the area across the split and lying within it along the split.
/// Where the panes fall along the split is left to the solver and not stated:
/// `Layout::split` rounds the solution of a floating-point constraint solver
/// whose choices depend on the iteration order of its hash maps. The
/// solver's required constraints (each boundary inside the area, each pane's
/// start before its end) are met by putting every boundary but the last at
/// the start, so the solver reports no unsatisfiable constraint; a panic on
/// an internal fault of the solver is not ruled out here.
#[verifier::external_body]
fn split_area(area: Area, vertical: bool, constraints: &Vec<LayoutConstraint>) -> (r: Vec<Area>)
    ensures
        r@.len() == constraints@.len(),
        forall|i: int| 0 <= i < r@.len() ==> pane_of(#[trigger] r@[i], area, vertical),
{
    let cs = constraints.iter().map(|c| match c {
        LayoutConstraint::Length(n) => Constraint::Length(*n),
        LayoutConstraint::Min(n) => Constraint::Min(*n),
    });
    let direction = if vertical { Direction::Vertical } else { Direction::Horizontal };
    let rect = Rect { x: area.x, y: area.y, width: area.width, height: area.height };
    let parts = Layout::default().direction(direction).constraints(cs).split(rect);
    parts.iter().map(|p| Area { x: p.x, y: p.y, width: p.width, height: p.height }).collect()
}

/// The rows of the screen: header, body, suggestions, prompt, status line.
pub open spec fn screen_rows() -> Seq<LayoutConstraint> {
    seq![
        LayoutConstraint::Length(3),
        LayoutConstraint::Min(8),
        LayoutConstraint::Length(6),
        LayoutConstraint::Length(4),
        LayoutConstraint::Length(1),
    ]
}

/// The columns of the body: transcript, model list.
pub open spec fn body_columns() -> Seq<LayoutConstraint> {
    seq![LayoutConstraint::Min(40), LayoutConstraint::Length(28)]
}

/// Every pane of the screen.
#[derive(Debug, Clone, Copy)]
pub struct AllAreas {
    pub header: Area,
    pub transcript: Area,
    pub models: Area,
    pub suggestions: Area,
    pub input: Area,
    pub status: Area,
}

/// The panes that react to the mouse.
#[derive(Debug, Clone, Copy)]
pub struct UiAreas {
    pub transcript: Area,
    pub models: Area,
    pub input: Area,
}

/// What the layout of a screen of size `area` fixes: the header, body,
/// suggestion, prompt and status rows each span the screen top to bottom in
/// it, and the transcript and model panes split the body left to right.
pub open spec fn screen_layout(all: AllAreas, area: Area) -> bool {
    &&& pane_of(all.header, area, true)
    &&& pane_of(all.suggestions, area, true)
    &&& pane_of(all.input, area, true)
    &&& pane_of(all.status, area, true)
    &&& exists|body: Area|
        {
            &&& pane_of(body, area, true)
            &&& pane_of(all.transcript, body, false)
            &&& pane_of(all.models, body, false)
        }
}

/// What the layout fixes of the panes that react to the mouse.
pub open spec fn mouse_layout(areas: UiAreas, area: Area) -> bool {
    &&& pane_of(areas.input, area, true)
    &&& exists|body: Area|
        {
            &&& pane_of(body, area, true)
            &&& pane_of(areas.transcript, body, false)
            &&& pane_of(areas.models, body, false)
        }
}

/// Lays the screen out.
pub fn layout_areas(area: Area) -> (r: AllAreas)
    ensures
        screen_layout(r, area),
{
    let rows_rule = vec![
        LayoutConstraint::Length(3),
        LayoutConstraint::Min(8),
        LayoutConstraint::Length(6),
        LayoutConstraint::Length(4),
        LayoutConstraint::Length(1),
    ];
    assert(rows_rule@ =~= screen_rows());
    let rows = split_area(area, true, &rows_rule);
    let columns_rule = vec![LayoutConstraint::Min(40), LayoutConstraint::Length(28)];
    assert(columns_rule@ =~= body_columns());
    let body = split_area(rows[1], false, &columns_rule);
    assert(pane_of(rows@[1], area, true));
    assert(pane_of(body@[0], rows@[1], false) && pane_of(body@[1], rows@[1], false));
    AllAreas {
        header: rows[0],
        transcript: body[0],
        models: body[1],
        suggestions: rows[2],
        input: rows[3],
        status: rows[4],
    }
}

/// The panes of the screen that react to the mouse.
pub fn public_areas(area: Area) -> (r: UiAreas)
    ensures
        mouse_layout(r, area),
{
    let all = layout_areas(area);
    UiAreas { transcript: all.transcript, models: all.models, input: all.input }
}

/// `a + b`, at most `u16::MAX`.
pub open spec fn sat_add16(a: u16, b: u16) -> int {
    if a + b > u16::MAX {
        u16::MAX as int
    } else {
        a + b
    }
}

/// `a - b`, at least 0.
pub open spec fn sat_sub(a: int, b: int) -> int {
    if a >= b {
        a - b
    } else {
        0
    }
}

/// The cell `(x, y)` lies in `area` (its far edges saturating at `u16::MAX`).
pub open spec fn area_contains(area: Area, x: u16, y: u16) -> bool {
    &&& x >= area.x
    &&& x < sat_add16(area.x, area.width)
    &&& y >= area.y
    &&& y < sat_add16(area.y, area.height)
}

/// Whether the cell `(x, y)` lies in `area`.
pub fn contains(area: Area, x: u16, y: u16) -> (r: bool)
    ensures
        r == area_contains(area, x, y),
{
    x >= area.x && x < area.x.saturating_add(area.width) && y >= area.y && y < area.y.saturating_add(
        area.height,
    )
}

// ---------------------------------------------------------------------------
// Keys
// ---------------------------------------------------------------------------
/// The modifier keys held with a key.
#[derive(Debug, Clone, Copy, PartialEq, Eq)]
pub enum KeyMods {
    /// None.
    Plain,
    /// Shift alone.
    Shift,
    /// Control alone.
    Control,
    /// Any other combination.
    Other,
}

/// A key that was pressed.
#[derive(Debug, Clone, Copy, PartialEq, Eq)]
pub enum Key {
    Char(char),
    Up,
    Down,
    Left,
    Right,
    Home,
    End,
    Delete,
    PageUp,
    PageDown,
    Enter,
    Backspace,
    Esc,
    Other,
}

/// What a key asks the agent to do.
#[derive(Debug, Clone, Copy, PartialEq, Eq)]
pub enum KeyAction {
    Quit,
    RefreshModels,
    NextModel,
    PreviousModel,
    Home,
    End,
    HistoryPrevious,
    HistoryNext,
    Left,
    Right,
    Delete,
    /// Scroll the transcript by this many lines (up is positive).
    ScrollTranscript(isize),
    Submit,
    Backspace,
    Insert(char),
    Nothing,
}

/// What a key does: Ctrl+C quits, Ctrl+M reloads the models, Ctrl+J/K pick
/// the next/previous model, Ctrl+A/E go to the start/end of the prompt; the
/// arrows, Home, End, Delete, Enter and Backspace edit the prompt or walk
/// its history; PageUp/PageDown scroll by 8 lines; a char typed alone or
/// with Shift is inserted; Esc quits.
pub open spec fn key_action_spec(mods: KeyMods, key: Key) -> KeyAction {
    if mods == KeyMods::Control && key == Key::Char('c') {
        KeyAction::Quit
    } else if mods == KeyMods::Control && key == Key::Char('m') {
        KeyAction::RefreshModels
    } else if mods == KeyMods::Control && key == Key::Char('j') {
        KeyAction::NextModel
    } else if mods == KeyMods::Control && key == Key::Char('k') {
        KeyAction::PreviousModel
    } else if mods == KeyMods::Control && key == Key::Char('a') {
        KeyAction::Home
    } else if mods == KeyMods::Control && key == Key::Char('e') {
        KeyAction::End
    } else {
        match key {
            Key::Up => KeyAction::HistoryPrevious,
            Key::Down => KeyAction::HistoryNext,
            Key::Left => KeyAction::Left,
            Key::Right => KeyAction::Right,
            Key::Home => KeyAction::Home,
            Key::End => KeyAction::End,
            Key::Delete => KeyAction::Delete,
            Key::PageUp => KeyAction::ScrollTranscript(8isize),
            Key::PageDown => KeyAction::ScrollTranscript(-8isize),
            Key::Enter => KeyAction::Submit,
            Key::Backspace => KeyAction::Backspace,
            Key::Char(ch) => if mods == KeyMods::Plain || mods == KeyMods::Shift {
                KeyAction::Insert(ch)
            } else {
                KeyAction::Nothing
            },
            Key::Esc => KeyAction::Quit,
            Key::Other => KeyAction::Nothing,
        }
    }
}

/// What a key asks the agent to do.
pub fn key_action(mods: KeyMods, key: Key) -> (r: KeyAction)
    ensures
        r == key_action_spec(mods, key),
{
    let control = match mods {
        KeyMods::Control => true,
        _ => false,
    };
    if control {
        match key {
            Key::Char('c') => {
                return KeyAction::Quit;
            },
            Key::Char('m') => {
                return KeyAction::RefreshModels;
            },
            Key::Char('j') => {
                return KeyAction::NextModel;
            },
            Key::Char('k') => {
                return KeyAction::PreviousModel;
            },
            Key::Char('a') => {
                return KeyAction::Home;
            },
            Key::Char('e') => {
                return KeyAction::End;
            },
            _ => {},
        }
    }
    match key {
        Key::Up => KeyAction::HistoryPrevious,
        Key::Down => KeyAction::HistoryNext,
        Key::Left => KeyAction::Left,
        Key::Right => KeyAction::Right,
        Key::Home => KeyAction::Home,
        Key::End => KeyAction::End,
        Key::Delete => KeyAction::Delete,
        Key::PageUp => KeyAction::ScrollTranscript(8),
        Key::PageDown => KeyAction::ScrollTranscript(-8),
        Key::Enter => KeyAction::Submit,
        Key::Backspace => KeyAction::Backspace,
        Key::Char(ch) => match mods {
            KeyMods::Plain => KeyAction::Insert(ch),
            KeyMods::Shift => KeyAction::Insert(ch),
            _ => KeyAction::Nothing,
        },
        Key::Esc => KeyAction::Quit,
        Key::Other => KeyAction::Nothing,
    }
}

// ---------------------------------------------------------------------------
// Mouse
// ---------------------------------------------------------------------------
/// What the mouse did.
#[derive(Debug, Clone, Copy, PartialEq, Eq)]
pub enum MouseKind {
    ScrollUp,
    ScrollDown,
    /// The left button went down.
    LeftDown,
    Other,
}

/// What a mouse event asks the agent to do.
#[derive(Debug, Clone, Copy, PartialEq, Eq)]
pub enum MouseAction {
    /// Scroll the transcript by this many lines (up is positive).
    ScrollTranscript(isize),
    PreviousModel,
    NextModel,
    /// Select the model at this row of the list.
    SelectModel(usize),
    /// Put the prompt cursor at this byte offset.
    MoveCursor(usize),
    Nothing,
}

/// Where a click on the `k`-th char cell of the prompt puts the cursor: on
/// that char, or at the end past the last one.
pub open spec fn click_cursor(input: Seq<char>, k: int) -> int {
    if k < input.len() {
        byte_offset(input, k) as int
    } else {
        utf8_len(input) as int
    }
}

/// What a mouse event at `(column, row)` does: the wheel scrolls the
/// transcript by 3 lines or walks the model list; a click on the model list
/// selects the model of that row (below the border); a click on the prompt
/// moves the cursor to the char clicked.
pub open spec fn mouse_action_spec(
    areas: UiAreas,
    input: Seq<char>,
    kind: MouseKind,
    column: u16,
    row: u16,
) -> MouseAction {
    match kind {
        MouseKind::ScrollUp => if area_contains(areas.transcript, column, row) {
            MouseAction::ScrollTranscript(3isize)
        } else if area_contains(areas.models, column, row) {
            MouseAction::PreviousModel
        } else {
            MouseAction::Nothing
        },
        MouseKind::ScrollDown => if area_contains(areas.transcript, column, row) {
            MouseAction::ScrollTranscript(-3isize)
        } else if area_contains(areas.models, column, row) {
            MouseAction::NextModel
        } else {
            MouseAction::Nothing
        },
        MouseKind::LeftDown => if area_contains(areas.models, column, row) {
            MouseAction::SelectModel(sat_sub(sat_sub(row as int, areas.models.y as int), 1) as usize)
        } else if area_contains(areas.input, column, row) {
            MouseAction::MoveCursor(
                click_cursor(input, sat_sub(sat_sub(column as int, areas.input.x as int), 1))
                    as usize,
            )
        } else {
            MouseAction::Nothing
        },
        MouseKind::Other => MouseAction::Nothing,
    }
}

impl App {
    /// What a mouse event does, on the screen laid out as `areas`.
    pub fn mouse_action(&self, areas: &UiAreas, kind: MouseKind, column: u16, row: u16) -> (r:
        MouseAction)
        ensures
            r == mouse_action_spec(*areas, self.input@, kind, column, row),
            r matches MouseAction::MoveCursor(c) ==> is_boundary(self.input@, c as int),
    {
        match kind {
            MouseKind::ScrollUp => {
                if contains(areas.transcript, column, row) {
                    MouseAction::ScrollTranscript(3)
                } else if contains(areas.models, column, row) {
                    MouseAction::PreviousModel
                } else {
                    MouseAction::Nothing
                }
            },
            MouseKind::ScrollDown => {
                if contains(areas.transcript, column, row) {
                    MouseAction::ScrollTranscript(-3)
                } else if contains(areas.models, column, row) {
                    MouseAction::NextModel
                } else {
                    MouseAction::Nothing
                }
            },
            MouseKind::LeftDown => {
                if contains(areas.models, column, row) {
                    let inner_y = row.saturating_sub(areas.models.y).saturating_sub(1);
                    MouseAction::SelectModel(inner_y as usize)
                } else if contains(areas.input, column, row) {
                    let inner_x = column.saturating_sub(areas.input.x).saturating_sub(1);
                    let v = chars_of(self.input.as_str());
                    let total = string_len(&self.input);
                    let k = inner_x as usize;
                    let target = if k < v.len() {
                        proof {
                            crate::text::lemma_byte_offset_len(v@);
                        }
                        offset_of_char(v.as_slice(), k)
                    } else {
                        total
                    };
                    proof {
                        if k < v@.len() {
                            crate::text::lemma_char_index(v@, k as int);
                        } else {
                            crate::text::lemma_byte_offset_len(v@);
                            crate::text::lemma_char_index(v@, v@.len() as int);
                        }
                    }
                    MouseAction::MoveCursor(target)
                } else {
                    MouseAction::Nothing
                }
            },
            MouseKind::Other => MouseAction::Nothing,
        }
    }

    /// What a mouse event does on a screen of `width` by `height` cells: the
    /// screen is laid out, then the event is read against the panes found.
    pub fn mouse_action_on_screen(
        &self,
        width: u16,
        height: u16,
        kind: MouseKind,
        column: u16,
        row: u16,
    ) -> (r: MouseAction)
        ensures
            exists|areas: UiAreas|
                {
                    &&& mouse_layout(areas, Area { x: 0, y: 0, width, height })
                    &&& r == mouse_action_spec(areas, self.input@, kind, column, row)
                },
            r matches MouseAction::MoveCursor(c) ==> is_boundary(self.input@, c as int),
    {
        let areas = public_areas(Area { x: 0, y: 0, width, height });
        let r = self.mouse_action(&areas, kind, column, row);
        assert(mouse_layout(areas, Area { x: 0, y: 0, width, height }) && r == mouse_action_spec(
            areas,
            self.input@,
            kind,
            column,
            row,
        ));
        r
    }
}

// ---------------------------------------------------------------------------
// What the panes show
// ---------------------------------------------------------------------------
/// The first and one-past-last index of the lines that fit in `height`
/// rows, `scroll` lines up from the bottom (never above the top).
pub open spec fn visible_range(len: int, height: int, scroll: int) -> (int, int) {
    if len <= height {
        (0, len)
    } else {
        let end = if sat_sub(len, scroll) > height {
            sat_sub(len, scroll)
        } else {
            height
        };
        (end - height, end)
    }
}

/// The range of lines shown in `height` rows, `scroll` lines up from the bottom.
pub fn visible_tail_range(len: usize, height: usize, scroll: usize) -> (r: (usize, usize))
    ensures
        r.0 == visible_range(len as int, height as int, scroll as int).0,
        r.1 == visible_range(len as int, height as int, scroll as int).1,
        r.0 <= r.1 <= len,
{
    if len <= height {
        return (0, len);
    }
    let below = len.saturating_sub(scroll);
    let end = if below > height {
        below
    } else {
        height
    };
    (end - height, end)
}

/// The text of the prompt that fits in a pane `width` cells wide, and the
/// column of the cursor in it: the window ends at the cursor once the
/// cursor would leave it.
pub open spec fn prompt_window(input: Seq<char>, cursor_char: int, width: int) -> (Seq<char>, int) {
    let inner = sat_sub(width, 2);
    let start = sat_sub(cursor_char, sat_sub(inner, 1));
    let end = if start + inner < input.len() {
        start + inner
    } else {
        input.len() as int
    };
    let x = if cursor_char - start < sat_sub(inner, 1) {
        cursor_char - start
    } else {
        sat_sub(inner, 1)
    };
    (input.subrange(start, end), x)
}

/// Tone of the status line.
#[derive(Debug, Clone, Copy, PartialEq, Eq)]
pub enum StatusTone {
    /// The status reports an error.
    Error,
    /// A request is running.
    Busy,
    Idle,
}

/// The tone of a status line whose lower-cased text is `lowered`.
pub open spec fn tone_spec(lowered: Seq<char>, busy: bool) -> StatusTone {
    if crate::text::contains(lowered, "error"@) {
        StatusTone::Error
    } else if busy {
        StatusTone::Busy
    } else {
        StatusTone::Idle
    }
}

/// The tone of a status line, given its lower-cased text.
pub fn tone_for(lowered: &str, busy: bool) -> (r: StatusTone)
    ensures
        r == tone_spec(lowered@, busy),
{
    if str_contains(lowered, "error") {
        StatusTone::Error
    } else if busy {
        StatusTone::Busy
    } else {
        StatusTone::Idle
    }
}

impl App {
    /// The visible part of the prompt in a pane `width` cells wide, with the
    /// cursor column.
    pub fn prompt_view(&self, width: u16) -> (r: (String, u16))
        requires
            self.wf(),
        ensures
            r.0@ == prompt_window(self.input@, self.cursor_char(), width as int).0,
            r.1 == prompt_window(self.input@, self.cursor_char(), width as int).1,
    {
        let v = chars_of(self.input.as_str());
        let k = char_index_of(v.as_slice(), self.input_cursor);
        let inner = (width as usize).saturating_sub(2);
        let start = k.saturating_sub(inner.saturating_sub(1));
        let end = if start < v.len() && inner < v.len() - start {
            start + inner
        } else {
            v.len()
        };
        assert(start <= k);
        let text = if start <= end {
            string_from_range(v.as_slice(), start, end)
        } else {
            string_from_range(v.as_slice(), end, end)
        };
        let limit = inner.saturating_sub(1);
        let x = if k - start < limit {
            k - start
        } else {
            limit
        };
        assert(x <= inner);
        (text, x as u16)
    }

    /// The tone of the status line: an error when it mentions one (in any
    /// case), else busy while a request runs.
    pub fn status_tone(&self) -> (r: StatusTone)
        ensures
            r == tone_spec(unicode_lowercase(self.status@), self.busy),
    {
        let lowered = to_lowercase(self.status.as_str());
        tone_for(lowered.as_str(), self.busy)
    }

    /// The model list as shown: whether each model is the selected one, and its name.
    pub fn model_rows(&self) -> (r: Vec<(bool, String)>)
        ensures
            r@.len() == self.models@.len(),
            forall|i: int|
                0 <= i < r@.len() ==> {
                    &&& (#[trigger] r@[i]).1@ == self.models@[i].name@
                    &&& r@[i].0 == (self.selected_model matches Some(s) && s@
                        == self.models@[i].name@)
                },
    {
        let mut r: Vec<(bool, String)> = Vec::new();
        let mut i: usize = 0;
        while i < self.models.len()
            invariant
                i <= self.models@.len(),
                r@.len() == i,
                forall|j: int|
                    0 <= j < i ==> {
                        &&& (#[trigger] r@[j]).1@ == self.models@[j].name@
                        &&& r@[j].0 == (self.selected_model matches Some(s) && s@
                            == self.models@[j].name@)
                    },
            decreases self.models.len() - i,
        {
            let name = self.models[i].name.as_str();
            let selected = match &self.selected_model {
                Some(s) => str_eq(s.as_str(), name),
                None => false,
            };
            r.push((selected, name.to_string()));
            i = i + 1;
        }
        r
    }
}

/// How a transcript entry's role is coloured.
#[derive(Debug, Clone, Copy, PartialEq, Eq)]
pub enum RoleTone {
    User,
    Assistant,
    Tool,
    Plain,
}

/// The colour of a role: `user`, `assistant` and `tool` have their own.
pub open spec fn role_tone_spec(role: Seq<char>) -> RoleTone {
    if role == "user"@ {
        RoleTone::User
    } else if role == "assistant"@ {
        RoleTone::Assistant
    } else if role == "tool"@ {
        RoleTone::Tool
    } else {
        RoleTone::Plain
    }
}

/// The colour of a role.
pub fn role_tone(role: &str) -> (r: RoleTone)
    ensures
        r == role_tone_spec(role@),
{
    if str_eq(role, "user") {
        RoleTone::User
    } else if str_eq(role, "assistant") {
        RoleTone::Assistant
    } else if str_eq(role, "tool") {
        RoleTone::Tool
    } else {
        RoleTone::Plain
    }
}

/// A line of the transcript pane.
#[derive(Debug, Clone, PartialEq, Eq)]
pub enum TranscriptLine {
    /// The role of an entry and when it was made.
    Header { role: String, timestamp: i64 },
    /// A line of an entry's text.
    Text(String),
    /// The gap after an entry.
    Blank,
}

/// A transcript line as plain values.
pub enum TranscriptLineView {
    Header(Seq<char>, i64),
    Text(Seq<char>),
    Blank,
}

impl View for TranscriptLine {
    type V = TranscriptLineView;

    open spec fn view(&self) -> TranscriptLineView {
        match self {
            TranscriptLine::Header { role, timestamp } => TranscriptLineView::Header(
                role@,
                *timestamp,
            ),
            TranscriptLine::Text(t) => TranscriptLineView::Text(t@),
            TranscriptLine::Blank => TranscriptLineView::Blank,
        }
    }
}

/// The text shown for an entry: `...` while it is blank, else the content
/// without trailing whitespace.
pub open spec fn entry_body(content: Seq<char>) -> Seq<char> {
    if trim(content).len() == 0 {
        "..."@
    } else {
        trim_end(content)
    }
}

/// The lines of one entry: a header, the lines of its text, a blank line.
pub open spec fn entry_lines(item: TranscriptItem) -> Seq<TranscriptLineView> {
    seq![TranscriptLineView::Header(item.role@, item.timestamp)] + lines(
        entry_body(item.content@),
    ).map_values(|l: Seq<char>| TranscriptLineView::Text(l)) + seq![TranscriptLineView::Blank]
}

/// The lines of the transcript pane, entry after entry.
pub open spec fn transcript_lines_spec(items: Seq<TranscriptItem>) -> Seq<TranscriptLineView>
    decreases items.len(),
{
    if items.len() == 0 {
        seq![]
    } else {
        transcript_lines_spec(items.drop_last()) + entry_lines(items.last())
    }
}

/// The views of a list of transcript lines.
pub open spec fn lines_view(ls: Seq<TranscriptLine>) -> Seq<TranscriptLineView> {
    ls.map_values(|l: TranscriptLine| l@)
}

/// The lines of the transcript pane.
pub fn transcript_lines(items: &Vec<TranscriptItem>) -> (r: Vec<TranscriptLine>)
    ensures
        lines_view(r@) == transcript_lines_spec(items@),
{
    let mut r: Vec<TranscriptLine> = Vec::new();
    let mut i: usize = 0;
    assert(items@.take(0) =~= Seq::<TranscriptItem>::empty());
    assert(lines_view(r@) =~= Seq::<TranscriptLineView>::empty());
    while i < items.len()
        invariant
            i <= items@.len(),
            lines_view(r@) == transcript_lines_spec(items@.take(i as int)),
        decreases items.len() - i,
    {
        let item = &items[i];
        let ghost before = lines_view(r@);
        r.push(TranscriptLine::Header { role: item.role.clone(), timestamp: item.timestamp });
        let v = chars_of(item.content.as_str());
        let (a, b) = trim_bounds(v.as_slice());
        let body = if a == b {
            proof {
                reveal_strlit("...");
            }
            let dots = vec!['.', '.', '.'];
            assert(dots@ =~= "..."@);
            dots
        } else {
            let e = trim_end_len(v.as_slice());
            crate::text::copy_range(v.as_slice(), 0, e)
        };
        assert(body@ == entry_body(item.content@)) by {
            if a != b {
                assert(v@.subrange(0, trim_end(v@).len() as int) =~= trim_end(v@));
            }
        }
        let texts = split_lines(body.as_slice());
        let ghost mid = lines_view(r@);
        let mut j: usize = 0;
        while j < texts.len()
            invariant
                j <= texts@.len(),
                strings_view(texts@) == lines(body@),
                lines_view(r@) == mid + lines(body@).take(j as int).map_values(
                    |l: Seq<char>| TranscriptLineView::Text(l),
                ),
            decreases texts.len() - j,
        {
            let ghost prev = lines_view(r@);
            r.push(TranscriptLine::Text(texts[j].clone()));
            assert(lines_view(r@) =~= prev.push(TranscriptLineView::Text(texts@[j as int]@)));
            assert(lines(body@).take(j + 1).map_values(|l: Seq<char>| TranscriptLineView::Text(l))
                =~= lines(body@).take(j as int).map_values(
                |l: Seq<char>| TranscriptLineView::Text(l),
            ).push(TranscriptLineView::Text(lines(body@)[j as int])));
            j = j + 1;
        }
        let ghost prev = lines_view(r@);
        r.push(TranscriptLine::Blank);
        proof {
            assert(lines_view(r@) =~= prev.push(TranscriptLineView::Blank));
            assert(lines(body@).take(j as int) =~= lines(body@));
            assert(items@.take(i + 1).drop_last() =~= items@.take(i as int));
            assert(mid =~= before.push(TranscriptLineView::Header(item.role@, item.timestamp)));
            assert(lines_view(r@) =~= before + entry_lines(items@[i as int]));
        }
        i = i + 1;
    }
    assert(items@.take(i as int) =~= items@);
    r
}

} // verus!
