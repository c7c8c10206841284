//! What is taken from and handed to the terminal emulator.

use crate::grid::{grid_chars, grid_text, Placed};
use crate::sequences::views;
use crate::terminal::{CellView, TerminalCell};
use crate::text::{
    characters, control_character, decimal, decimal_chars, is_control, is_space,
    law_blank_text_is_trimmed_to_nothing, lossy_text, trim, trimmed, utf8_lossy,
};
use vstd::prelude::*;
use vstd::string::*;

verus! {

/// The most steps that one scroll event may take.
pub const MAX_SCROLL_OUTPUT_STEPS: u64 = 16384;

/// The bytes that a bracketed paste adds at most.
pub const BRACKETED_PASTE_OVERHEAD: usize = 12;

/// A cell as the emulator renders it.
pub struct Cell {
    pub x: u16,
    pub y: u16,
    pub text: String,
    pub width: u8,
    pub fg: [u8; 3],
    pub bg: [u8; 3],
    pub has_explicit_bg: bool,
    pub soft_wrapped: bool,
    pub selected: bool,
}

impl Clone for Cell {
    fn clone(&self) -> (copy: Self)
        ensures
            copy == *self,
    {
        Cell {
            x: self.x,
            y: self.y,
            text: self.text.clone(),
            width: self.width,
            fg: self.fg,
            bg: self.bg,
            has_explicit_bg: self.has_explicit_bg,
            soft_wrapped: self.soft_wrapped,
            selected: self.selected,
        }
    }
}

impl Placed for Cell {
    open spec fn place(self) -> (u16, u16) {
        (self.x, self.y)
    }

    open spec fn glyph(self) -> Seq<char> {
        self.text@
    }

    fn stands_at(&self, x: u16, y: u16) -> (result: bool) {
        self.x == x && self.y == y
    }

    fn glyph_text(&self) -> (text: &str) {
        self.text.as_str()
    }
}

impl Cell {
    /// What other processes learn of the cell.
    pub open spec fn shown(self) -> CellView {
        CellView {
            x: self.x,
            y: self.y,
            width: self.width,
            text: self.text@,
            fg: self.fg@,
            bg: self.bg@,
            has_explicit_bg: self.has_explicit_bg,
        }
    }

    pub fn into_terminal_cell(self) -> (cell: TerminalCell)
        ensures
            cell@ == self.shown(),
    {
        TerminalCell {
            x: self.x,
            y: self.y,
            width: self.width,
            text: self.text,
            fg: self.fg,
            bg: self.bg,
            has_explicit_bg: self.has_explicit_bg,
        }
    }
}

/// What other processes learn of the cells.
pub open spec fn shown_cells(cells: Seq<Cell>) -> Seq<CellView> {
    Seq::new(cells.len(), |i: int| cells[i].shown())
}

pub fn into_terminal_cells(cells: Vec<Cell>) -> (result: Vec<TerminalCell>)
    ensures
        views(result@) == shown_cells(cells@),
{
    let mut cells = cells;
    let ghost all = cells@;
    let mut backwards: Vec<TerminalCell> = Vec::new();
    while cells.len() > 0
        invariant
            cells@.len() + backwards@.len() == all.len(),
            cells@ == all.take(cells@.len() as int),
            forall|i: int|
                0 <= i < backwards@.len() ==> (#[trigger] backwards@[i])@ == all[all.len() - 1
                    - i].shown(),
        decreases cells@.len(),
    {
        let ghost count = cells@.len() as int;
        if let Some(cell) = cells.pop() {
            backwards.push(cell.into_terminal_cell());
        }
        proof {
            assert(all.take(count).drop_last() =~= all.take(count - 1));
        }
    }
    let mut result: Vec<TerminalCell> = Vec::new();
    while backwards.len() > 0
        invariant
            backwards@.len() + result@.len() == all.len(),
            forall|i: int|
                0 <= i < backwards@.len() ==> (#[trigger] backwards@[i])@ == all[all.len() - 1
                    - i].shown(),
            forall|i: int| 0 <= i < result@.len() ==> (#[trigger] result@[i])@ == all[i].shown(),
        decreases backwards@.len(),
    {
        if let Some(cell) = backwards.pop() {
            result.push(cell);
        }
    }
    proof {
        assert(views(result@) =~= shown_cells(all));
    }
    result
}

/// What the emulator shows, or what has changed of it.
pub struct Snapshot {
    pub full: bool,
    pub dirty_rows: Vec<u16>,
    pub cols: u16,
    pub rows: u16,
    pub title: Option<String>,
    pub cursor: Option<(u16, u16)>,
    pub bracketed_paste: bool,
    pub alternate_screen: bool,
    pub default_fg: [u8; 3],
    pub default_bg: [u8; 3],
    pub selection_text: Option<String>,
    pub cells: Vec<Cell>,
}

/// The text of a snapshot, row by row.
pub fn snapshot_text(snapshot: &Snapshot) -> (text: String)
    ensures
        text@ == grid_chars(snapshot.cells@, snapshot.cols as nat, snapshot.rows as nat),
{
    grid_text(&snapshot.cells, snapshot.cols, snapshot.rows)
}

/// What the emulator reports of a frame, beside its cells.
pub struct Frame {
    pub full: bool,
    pub cols: u16,
    pub rows: u16,
    pub title: Vec<u8>,
    pub cursor_x: u16,
    pub cursor_y: u16,
    pub cursor_visible: bool,
    pub bracketed_paste: bool,
    pub alternate_screen: bool,
    pub default_fg: [u8; 3],
    pub default_bg: [u8; 3],
}

/// `rows` without those that repeat the one before.
pub open spec fn deduplicated(rows: Seq<u16>) -> Seq<u16>
    decreases rows.len(),
{
    if rows.len() <= 1 {
        rows
    } else if rows.last() == rows[rows.len() - 2] {
        deduplicated(rows.drop_last())
    } else {
        deduplicated(rows.drop_last()).push(rows.last())
    }
}

/// The row of each cell.
pub open spec fn rows_of(cells: Seq<Cell>) -> Seq<u16> {
    Seq::new(cells.len(), |i: int| cells[i].y)
}

/// The rows that `cells` are in.
pub fn dirty_rows(cells: &Vec<Cell>) -> (rows: Vec<u16>)
    ensures
        rows@ == deduplicated(rows_of(cells@)),
{
    let mut rows: Vec<u16> = Vec::new();
    let mut index: usize = 0;
    let ghost all = rows_of(cells@);
    proof {
        assert(rows@ =~= deduplicated(all.take(0)));
    }
    while index < cells.len()
        invariant
            index <= cells@.len(),
            all == rows_of(cells@),
            rows@ == deduplicated(all.take(index as int)),
        decreases cells@.len() - index,
    {
        proof {
            assert(all.take(index + 1).drop_last() =~= all.take(index as int));
            assert(all.take(index + 1).last() == cells@[index as int].y);
            if index > 0 {
                assert(all.take(index + 1)[index - 1] == cells@[index - 1].y);
            } else {
                assert(all.take(1) =~= all.take(0).push(cells@[0].y));
            }
        }
        if index == 0 || cells[index].y != cells[index - 1].y {
            rows.push(cells[index].y);
        }
        index += 1;
    }
    proof {
        assert(all.take(index as int) =~= all);
    }
    rows
}

/// `chars` with blanks for control characters.
pub open spec fn printable(chars: Seq<char>) -> Seq<char> {
    Seq::new(
        chars.len(),
        |i: int|
            if is_control(chars[i]) {
                ' '
            } else {
                chars[i]
            },
    )
}

/// The title that a text gives: nothing where it is blank.
pub open spec fn title_in(chars: Seq<char>) -> Option<Seq<char>> {
    let title = trimmed(printable(chars));
    if title.len() == 0 {
        None
    } else {
        Some(title)
    }
}

pub open spec fn option_chars(text: Option<String>) -> Option<Seq<char>> {
    match text {
        Some(text) => Some(text@),
        None => None,
    }
}

/// The title that a text gives.
pub fn sanitized_title(text: &str) -> (title: Option<String>)
    ensures
        option_chars(title) == title_in(text@),
{
    let chars = characters(text);
    let mut clean: Vec<char> = Vec::new();
    let mut index: usize = 0;
    while index < chars.len()
        invariant
            index <= chars@.len(),
            clean@ == printable(chars@.take(index as int)),
        decreases chars@.len() - index,
    {
        clean.push(
            if control_character(chars[index]) {
                ' '
            } else {
                chars[index]
            },
        );
        index += 1;
        proof {
            assert(clean@ =~= printable(chars@.take(index as int)));
        }
    }
    proof {
        assert(chars@.take(index as int) =~= chars@);
    }
    let title = trim(clean.as_slice());
    if title.as_str().is_empty() {
        None
    } else {
        Some(title)
    }
}

/// The title in the bytes that the emulator reports.
pub fn reported_title(bytes: &[u8]) -> (title: Option<String>)
    ensures
        option_chars(title) == title_in(utf8_lossy(bytes@)),
{
    let text = lossy_text(bytes);
    sanitized_title(text.as_str())
}

/// The text in the bytes of a cell.
pub fn cell_text(bytes: &[u8]) -> (text: String)
    ensures
        text@ == utf8_lossy(bytes@),
{
    lossy_text(bytes)
}

/// The snapshot of a frame.
pub fn assemble(frame: Frame, cells: Vec<Cell>, selection_text: Option<String>) -> (snapshot:
    Snapshot)
    ensures
        snapshot.full == frame.full,
        snapshot.dirty_rows@ == deduplicated(rows_of(cells@)),
        snapshot.cols == frame.cols,
        snapshot.rows == frame.rows,
        option_chars(snapshot.title) == title_in(utf8_lossy(frame.title@)),
        snapshot.cursor == if frame.cursor_visible {
            Some((frame.cursor_x, frame.cursor_y))
        } else {
            None
        },
        snapshot.bracketed_paste == frame.bracketed_paste,
        snapshot.alternate_screen == frame.alternate_screen,
        snapshot.default_fg == frame.default_fg,
        snapshot.default_bg == frame.default_bg,
        snapshot.selection_text == selection_text,
        snapshot.cells == cells,
{
    Snapshot {
        full: frame.full,
        dirty_rows: dirty_rows(&cells),
        cols: frame.cols,
        rows: frame.rows,
        title: reported_title(frame.title.as_slice()),
        cursor: if frame.cursor_visible {
            Some((frame.cursor_x, frame.cursor_y))
        } else {
            None
        },
        bracketed_paste: frame.bracketed_paste,
        alternate_screen: frame.alternate_screen,
        default_fg: frame.default_fg,
        default_bg: frame.default_bg,
        selection_text,
        cells,
    }
}

/// `value` in decimal, with its sign.
pub open spec fn signed_chars(value: int) -> Seq<char> {
    if value < 0 {
        "-"@ + decimal_chars((-value) as nat)
    } else {
        decimal_chars(value as nat)
    }
}

/// Turns a result code of the emulator into an error.
pub fn result_ok(result: i32, operation: &str) -> (outcome: Result<(), String>)
    ensures
        match outcome {
            Ok(()) => result == 0,
            Err(error) => result != 0 && error@ == "libghostty-vt "@ + operation@
                + " failed with "@ + signed_chars(result as int),
        },
{
    if result == 0 {
        return Ok(());
    }
    let mut message = "libghostty-vt ".to_owned();
    message.append(operation);
    message.append(" failed with ");
    let ghost head = message@;
    if result < 0 {
        message.append("-");
        message.append(decimal((-(result as i64)) as u64).as_str());
        proof {
            assert(message@ =~= head + signed_chars(result as int));
        }
    } else {
        message.append(decimal(result as u64).as_str());
    }
    Err(message)
}

/// The room that a paste of `length` bytes needs.
pub fn paste_capacity(length: usize) -> (capacity: Result<usize, String>)
    ensures
        match capacity {
            Ok(capacity) => capacity == length + BRACKETED_PASTE_OVERHEAD,
            Err(error) => length + BRACKETED_PASTE_OVERHEAD > usize::MAX && error@
                == "terminal paste is too large"@,
        },
        capacity matches Ok(capacity) ==> capacity - length == 12,
{
    match length.checked_add(BRACKETED_PASTE_OVERHEAD) {
        Some(capacity) => Ok(capacity),
        None => Err("terminal paste is too large".to_owned()),
    }
}

/// The objection to `written` bytes in a buffer of `capacity`.
pub fn check_written(subject: &str, written: usize, capacity: usize) -> (result: Result<
    (),
    String,
>)
    ensures
        match result {
            Ok(()) => written <= capacity,
            Err(error) => written > capacity && error@ == "libghostty-vt "@ + subject@ + " needs "@
                + decimal_chars(written as nat) + " bytes, buffer has "@ + decimal_chars(
                capacity as nat,
            ),
        },
{
    if written <= capacity {
        return Ok(());
    }
    let mut message = "libghostty-vt ".to_owned();
    message.append(subject);
    message.append(" needs ");
    message.append(decimal(written as u64).as_str());
    message.append(" bytes, buffer has ");
    message.append(decimal(capacity as u64).as_str());
    Err(message)
}

/// The objection to a frame of `count` cells in a buffer of `capacity`.
pub fn check_cell_count(count: usize, capacity: usize) -> (result: Result<(), String>)
    ensures
        match result {
            Ok(()) => count <= capacity,
            Err(error) => count > capacity && error@ == "snapshot needs "@ + decimal_chars(
                count as nat,
            ) + " cells, prototype buffer has "@ + decimal_chars(capacity as nat),
        },
{
    if count <= capacity {
        return Ok(());
    }
    let mut message = "snapshot needs ".to_owned();
    message.append(decimal(count as u64).as_str());
    message.append(" cells, prototype buffer has ");
    message.append(decimal(capacity as u64).as_str());
    Err(message)
}

pub open spec fn magnitude(value: int) -> int {
    if value < 0 {
        -value
    } else {
        value
    }
}

fn unsigned_magnitude(value: i64) -> (result: u64)
    ensures
        result == magnitude(value as int),
{
    if value >= 0 {
        value as u64
    } else {
        (-(value + 1)) as u64 + 1
    }
}

/// The room that the output of a scroll event needs: none where nothing is
/// scrolled.
pub fn scroll_capacity(delta_rows: i64, delta_columns: i64) -> (capacity: Result<
    Option<usize>,
    String,
>)
    ensures
        match capacity {
            Ok(None) => delta_rows == 0 && delta_columns == 0,
            Ok(Some(capacity)) => {
                let steps = magnitude(delta_rows as int) + magnitude(delta_columns as int);
                0 < steps <= MAX_SCROLL_OUTPUT_STEPS && capacity == 128 * steps
            },
            Err(error) => magnitude(delta_rows as int) + magnitude(delta_columns as int)
                > MAX_SCROLL_OUTPUT_STEPS && error@ == "terminal scroll output is too large"@,
        },
        capacity is Err ==> delta_rows > 8192 || delta_rows < -8192 || delta_columns > 8192
            || delta_columns < -8192,
        delta_rows > 16384 || delta_rows < -16384 || delta_columns > 16384 || delta_columns < -16384
            ==> capacity is Err,
{
    if delta_rows == 0 && delta_columns == 0 {
        return Ok(None);
    }
    let steps = match unsigned_magnitude(delta_rows).checked_add(
        unsigned_magnitude(delta_columns),
    ) {
        Some(steps) => steps,
        None => return Err("terminal scroll output is too large".to_owned()),
    };
    if steps > MAX_SCROLL_OUTPUT_STEPS {
        return Err("terminal scroll output is too large".to_owned());
    }
    Ok(Some(steps as usize * 128))
}

/// A step in selecting text.
#[derive(Clone, Copy, Debug, PartialEq, Eq, Structural)]
pub enum SelectionEventType {
    Press,
    Drag,
    Release,
    Autoscroll,
    Clear,
}

impl SelectionEventType {
    pub open spec fn spec_code(self) -> u8 {
        match self {
            SelectionEventType::Press => 0,
            SelectionEventType::Drag => 1,
            SelectionEventType::Release => 2,
            SelectionEventType::Autoscroll => 3,
            SelectionEventType::Clear => 4,
        }
    }

    /// The number that the emulator knows the step by.
    pub fn code(self) -> (code: u8)
        ensures
            code == self.spec_code(),
            code == 0 <==> self is Press,
            code == 1 <==> self is Drag,
            code == 2 <==> self is Release,
            code == 3 <==> self is Autoscroll,
            code == 4 <==> self is Clear,
    {
        match self {
            SelectionEventType::Press => 0,
            SelectionEventType::Drag => 1,
            SelectionEventType::Release => 2,
            SelectionEventType::Autoscroll => 3,
            SelectionEventType::Clear => 4,
        }
    }
}

/// The selected text, as far as it is known.
pub struct SelectionCache {
    pub text: Option<String>,
    pub dragging: bool,
}

impl SelectionCache {
    pub fn new() -> (cache: Self)
        ensures
            cache.text is None,
            !cache.dragging,
    {
        SelectionCache { text: None, dragging: false }
    }

    /// Notes that output has arrived, under which the selection may have
    /// changed.
    pub fn note_output(&mut self)
        ensures
            final(self).text is None,
            final(self).dragging == old(self).dragging,
    {
        self.text = None;
    }

    /// Notes a step; says whether the selected text is to be read now.
    pub fn note_event(&mut self, event: SelectionEventType) -> (read: bool)
        ensures
            read == (event == SelectionEventType::Release),
            final(self).dragging == (event == SelectionEventType::Press || event
                == SelectionEventType::Drag || event == SelectionEventType::Autoscroll),
            final(self).text == if read {
                old(self).text
            } else {
                None
            },
    {
        match event {
            SelectionEventType::Press | SelectionEventType::Drag | SelectionEventType::Autoscroll => {
                self.dragging = true;
                self.text = None;
                false
            },
            SelectionEventType::Release => {
                self.dragging = false;
                true
            },
            SelectionEventType::Clear => {
                self.dragging = false;
                self.text = None;
                false
            },
        }
    }

    /// Notes whether a frame has a selection; says whether the selected text
    /// is to be read now.
    pub fn note_frame(&mut self, selection_active: bool) -> (read: bool)
        ensures
            read == (selection_active && !old(self).dragging && old(self).text is None),
            final(self).dragging == old(self).dragging,
            final(self).text == if selection_active {
                old(self).text
            } else {
                None
            },
    {
        if !selection_active {
            self.text = None;
            false
        } else {
            !self.dragging && self.text.is_none()
        }
    }
}

/// What measuring the selected text has come to.
#[derive(Clone, Copy, Debug, PartialEq, Eq, Structural)]
pub enum Measured {
    Nothing,
    Text,
}

/// Reads the result code of measuring the selected text.
pub fn measured_selection(result: i32) -> (measured: Result<Measured, String>)
    ensures
        match measured {
            Ok(Measured::Nothing) => result == -4,
            Ok(Measured::Text) => result == -3 || result == 0,
            Err(error) => result != -4 && result != -3 && result != 0 && error@
                == "libghostty-vt "@ + "measure selection text"@ + " failed with "@ + signed_chars(
                result as int,
            ),
        },
{
    if result == -4 {
        return Ok(Measured::Nothing);
    }
    if result != -3 {
        match result_ok(result, "measure selection text") {
            Ok(()) => {},
            Err(error) => return Err(error),
        }
    }
    Ok(Measured::Text)
}

/// The rows that are told of are those that have a cell, and no row is told of
/// twice in turn; where the cells come from top to bottom, neither do the rows
/// go back.
pub proof fn law_rows_with_cells_are_told(rows: Seq<u16>, row: u16, index: int)
    ensures
        deduplicated(rows).contains(row) <==> rows.contains(row),
        0 < index < deduplicated(rows).len() ==> deduplicated(rows)[index - 1]
            != deduplicated(rows)[index],
        rows.len() > 0 ==> deduplicated(rows).len() > 0 && deduplicated(rows).last()
            == rows.last(),
        (forall|i: int, j: int| 0 <= i < j < rows.len() ==> rows[i] <= rows[j]) && 0 < index
            < deduplicated(rows).len() ==> deduplicated(rows)[index - 1] < deduplicated(
            rows,
        )[index],
    decreases rows.len(),
{
    if rows.len() > 1 {
        let shorter = rows.drop_last();
        let fewer = deduplicated(shorter);
        let told = deduplicated(rows);
        law_rows_with_cells_are_told(shorter, row, index);
        assert(rows =~= shorter.push(rows.last()));
        assert(shorter.last() == rows[rows.len() - 2]);
        if shorter.contains(row) {
            let i = shorter.index_of(row);
            assert(rows[i] == row);
            let k = fewer.index_of(row);
            assert(told[k] == row);
        }
        if rows.contains(row) && !shorter.contains(row) {
            let i = rows.index_of(row);
            if i < shorter.len() {
                assert(shorter[i] == row);
            }
            assert(row == rows.last());
            if rows.last() == rows[rows.len() - 2] {
                assert(shorter[shorter.len() - 1] == row);
            } else {
                assert(told[told.len() - 1] == row);
            }
        }
        if told.contains(row) && rows.last() != rows[rows.len() - 2] {
            let k = told.index_of(row);
            if k < fewer.len() {
                assert(fewer[k] == row);
            } else {
                assert(rows[rows.len() - 1] == row);
            }
        }
        if forall|i: int, j: int| 0 <= i < j < rows.len() ==> rows[i] <= rows[j] {
            assert forall|i: int, j: int| 0 <= i < j < shorter.len() implies shorter[i]
                <= shorter[j] by {
                assert(rows[i] <= rows[j]);
            }
            assert(rows[rows.len() - 2] <= rows[rows.len() - 1]);
        }
    }
}

/// A title holds no control characters and has no white space at its ends; a text
/// of nothing else gives none, and a text without either is its own title.
pub proof fn law_titles_are_printable(chars: Seq<char>)
    ensures
        chars.len() > 0 && !is_space(chars[0]) && !is_space(chars.last()) && (forall|i: int|
            0 <= i < chars.len() ==> !is_control(#[trigger] chars[i])) ==> title_in(chars) == Some(
            chars,
        ),
        (forall|i: int| 0 <= i < chars.len() ==> is_control(#[trigger] chars[i]) || is_space(chars[i]))
            ==> title_in(chars) is None,
        title_in(chars) matches Some(title) ==> {
            &&& title.len() > 0
            &&& !is_space(title[0])
            &&& !is_space(title.last())
            &&& forall|i: int| 0 <= i < title.len() ==> !is_control(#[trigger] title[i])
        },
{
    let clean = printable(chars);
    if forall|i: int| 0 <= i < chars.len() ==> !is_control(#[trigger] chars[i]) {
        assert(clean =~= chars);
    }
    if forall|i: int| 0 <= i < chars.len() ==> is_control(#[trigger] chars[i]) || is_space(chars[i]) {
        assert forall|i: int| 0 <= i < clean.len() implies is_space(#[trigger] clean[i]) by {
            assert(is_control(chars[i]) || is_space(chars[i]));
        }
        law_blank_text_is_trimmed_to_nothing(clean);
    }
    assert forall|i: int| 0 <= i < clean.len() implies !is_control(#[trigger] clean[i]) by {
    }
    lemma_trimmed_within(clean);
}

proof fn lemma_trimmed_within(chars: Seq<char>)
    requires
        forall|i: int| 0 <= i < chars.len() ==> !is_control(#[trigger] chars[i]),
    ensures
        forall|i: int| 0 <= i < trimmed(chars).len() ==> !is_control(#[trigger] trimmed(chars)[i]),
        trimmed(chars).len() > 0 ==> !is_space(trimmed(chars)[0]) && !is_space(
            trimmed(chars).last(),
        ),
    decreases chars.len(),
{
    if chars.len() > 0 {
        if is_space(chars[0]) {
            assert forall|i: int| 0 <= i < chars.skip(1).len() implies !is_control(
                #[trigger] chars.skip(1)[i],
            ) by {
                assert(!is_control(chars[i + 1]));
            }
            lemma_trimmed_within(chars.skip(1));
        } else if is_space(chars.last()) {
            lemma_trimmed_within(chars.drop_last());
        }
    }
}

} // verus!
