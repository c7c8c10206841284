//! The forms of terminal contents.

use super::format::{
    get_items, items_form, items_refusal, lemma_items_round_trip, lemma_tagged, mapped,
    parse_items, put_items, put_optional, OptionTag, Optional, Parsed, Tag, Wire, WireError,
};
use crate::bytes::Decoder;
use crate::resident_core::protocol::{TerminalUpdate, UpdateView};
use crate::sequences::views;
use crate::terminal::{CellView, LifecycleView, TerminalCell, TerminalLifecycle};
use vstd::prelude::*;
use vstd::string::*;

verus! {

/// The most cells that a terminal may have.
pub const SNAPSHOT_CELL_CAPACITY: usize = 65536;

impl Wire for TerminalLifecycle {
    open spec fn form(value: LifecycleView) -> Seq<u8> {
        match value {
            LifecycleView::Running => seq![0u8],
            LifecycleView::Exited => seq![1u8],
            LifecycleView::Failed(error) => seq![2u8] + String::form(error),
        }
    }

    open spec fn refusal(value: LifecycleView) -> Option<WireError> {
        match value {
            LifecycleView::Failed(error) => String::refusal(error),
            _ => None,
        }
    }

    open spec fn parse(input: Seq<u8>) -> Parsed<LifecycleView> {
        match u8::parse(input) {
            Err(error) => Err(error),
            Ok((tag, rest)) => if tag == 0 {
                Ok((LifecycleView::Running, rest))
            } else if tag == 1 {
                Ok((LifecycleView::Exited, rest))
            } else if tag == 2 {
                mapped(String::parse(rest), |error: Seq<char>| LifecycleView::Failed(error))
            } else {
                Err(WireError::InvalidTag(Tag::TerminalLifecycle))
            },
        }
    }

    open spec fn readable(value: LifecycleView) -> bool {
        true
    }

    open spec fn received(value: LifecycleView) -> LifecycleView {
        value
    }

    proof fn round_trip(value: LifecycleView, rest: Seq<u8>) {
        match value {
            LifecycleView::Running => {
                u8::round_trip(0, rest);
            },
            LifecycleView::Exited => {
                u8::round_trip(1, rest);
            },
            LifecycleView::Failed(error) => {
                String::round_trip(error, rest);
                lemma_tagged(2, String::form(error), rest);
            },
        }
    }

    fn put(&self, output: &mut Vec<u8>) -> (result: Result<(), WireError>) {
        match self {
            TerminalLifecycle::Running => 0u8.put(output),
            TerminalLifecycle::Exited => 1u8.put(output),
            TerminalLifecycle::Failed(error) => {
                output.push(2);
                if let Err(error) = error.put(output) {
                    return Err(error);
                }
                proof {
                    assert(output@ =~= old(output)@ + Self::form(self@));
                }
                Ok(())
            },
        }
    }

    fn get(decoder: &mut Decoder<'_>) -> (result: Result<TerminalLifecycle, WireError>) {
        match u8::get(decoder) {
            Err(error) => Err(error),
            Ok(0) => Ok(TerminalLifecycle::Running),
            Ok(1) => Ok(TerminalLifecycle::Exited),
            Ok(2) => match String::get(decoder) {
                Ok(error) => Ok(TerminalLifecycle::Failed(error)),
                Err(error) => Err(error),
            },
            Ok(_) => Err(WireError::InvalidTag(Tag::TerminalLifecycle)),
        }
    }
}

/// Whether a cell's background was set.
pub struct BackgroundFlag(pub bool);

impl View for BackgroundFlag {
    type V = bool;

    open spec fn view(&self) -> bool {
        self.0
    }
}

impl Wire for BackgroundFlag {
    open spec fn form(value: bool) -> Seq<u8> {
        if value {
            seq![1u8]
        } else {
            seq![0u8]
        }
    }

    open spec fn refusal(value: bool) -> Option<WireError> {
        None
    }

    open spec fn parse(input: Seq<u8>) -> Parsed<bool> {
        match u8::parse(input) {
            Err(error) => Err(error),
            Ok((tag, rest)) => if tag == 0 {
                Ok((false, rest))
            } else if tag == 1 {
                Ok((true, rest))
            } else {
                Err(WireError::InvalidTag(Tag::ExplicitBackground))
            },
        }
    }

    open spec fn readable(value: bool) -> bool {
        true
    }

    open spec fn received(value: bool) -> bool {
        value
    }

    proof fn round_trip(value: bool, rest: Seq<u8>) {
        u8::round_trip(Self::form(value)[0], rest);
    }

    fn put(&self, output: &mut Vec<u8>) -> (result: Result<(), WireError>) {
        if self.0 {
            1u8.put(output)
        } else {
            0u8.put(output)
        }
    }

    fn get(decoder: &mut Decoder<'_>) -> (result: Result<BackgroundFlag, WireError>) {
        match u8::get(decoder) {
            Err(error) => Err(error),
            Ok(0) => Ok(BackgroundFlag(false)),
            Ok(1) => Ok(BackgroundFlag(true)),
            Ok(_) => Err(WireError::InvalidTag(Tag::ExplicitBackground)),
        }
    }
}

pub type CellForm = (u16, (u16, (u8, (String, ([u8; 3], ([u8; 3], BackgroundFlag))))));

pub type CellFields = (u16, (u16, (u8, (Seq<char>, (Seq<u8>, (Seq<u8>, bool))))));

pub open spec fn cell_fields(cell: CellView) -> CellFields {
    (cell.x, (cell.y, (cell.width, (cell.text, (cell.fg, (cell.bg, cell.has_explicit_bg))))))
}

pub open spec fn cell_of(fields: CellFields) -> CellView {
    let (x, (y, (width, (text, (fg, (bg, has_explicit_bg)))))) = fields;
    CellView { x, y, width, text, fg, bg, has_explicit_bg }
}

impl Wire for TerminalCell {
    open spec fn form(value: CellView) -> Seq<u8> {
        CellForm::form(cell_fields(value))
    }

    open spec fn refusal(value: CellView) -> Option<WireError> {
        String::refusal(value.text)
    }

    open spec fn parse(input: Seq<u8>) -> Parsed<CellView> {
        mapped(CellForm::parse(input), |fields: CellFields| cell_of(fields))
    }

    open spec fn readable(value: CellView) -> bool {
        value.fg.len() == 3 && value.bg.len() == 3
    }

    open spec fn received(value: CellView) -> CellView {
        value
    }

    proof fn round_trip(value: CellView, rest: Seq<u8>) {
        CellForm::round_trip(cell_fields(value), rest);
    }

    fn put(&self, output: &mut Vec<u8>) -> (result: Result<(), WireError>) {
        let _ = (self.x, (self.y, self.width)).put(output);
        if let Err(error) = self.text.put(output) {
            return Err(error);
        }
        let _ = (self.fg, (self.bg, BackgroundFlag(self.has_explicit_bg))).put(output);
        proof {
            assert(output@ =~= old(output)@ + Self::form(self@));
        }
        Ok(())
    }

    fn get(decoder: &mut Decoder<'_>) -> (result: Result<TerminalCell, WireError>) {
        match CellForm::get(decoder) {
            Err(error) => Err(error),
            Ok((x, (y, (width, (text, (fg, (bg, flag))))))) => Ok(
                TerminalCell { x, y, width, text, fg, bg, has_explicit_bg: flag.0 },
            ),
        }
    }
}

/// The byte before the revision that an update builds on.
pub struct OfBaseRevision;

impl OptionTag for OfBaseRevision {
    open spec fn spec_tag() -> Tag {
        Tag::BaseRevisionPresence
    }

    fn tag() -> (tag: Tag) {
        Tag::BaseRevisionPresence
    }
}

/// The byte before the cursor.
pub struct OfCursor;

impl OptionTag for OfCursor {
    open spec fn spec_tag() -> Tag {
        Tag::CursorPresence
    }

    fn tag() -> (tag: Tag) {
        Tag::CursorPresence
    }
}

pub type BaseRevision = Optional<u64, OfBaseRevision>;

pub type Cursor = Optional<(u16, u16), OfCursor>;

/// The fields of an update before its rows, with the number of rows.
pub type HeadForm = (
    BaseRevision,
    (u64, (TerminalLifecycle, (u16, (u16, (Cursor, ([u8; 3], ([u8; 3], u16))))))),
);

pub type HeadFields = (
    Option<u64>,
    (
        u64,
        (LifecycleView, (u16, (u16, (Option<(u16, u16)>, (Seq<u8>, (Seq<u8>, u16)))))),
    ),
);

pub open spec fn head_fields(update: UpdateView) -> HeadFields {
    (
        update.base_revision,
        (
            update.revision,
            (
                update.lifecycle,
                (
                    update.cols,
                    (
                        update.rows,
                        (
                            update.cursor,
                            (
                                update.default_fg,
                                (update.default_bg, update.dirty_rows.len() as u16),
                            ),
                        ),
                    ),
                ),
            ),
        ),
    )
}

/// An update with a head, rows and cells.
pub open spec fn update_of(head: HeadFields, dirty_rows: Seq<u16>, cells: Seq<CellView>) -> UpdateView {
    let (base_revision, (revision, (lifecycle, (cols, (rows, (cursor, (default_fg, (default_bg, _)))))))) = head;
    UpdateView {
        base_revision,
        revision,
        lifecycle,
        cols,
        rows,
        cursor,
        default_fg,
        default_bg,
        dirty_rows,
        cells,
    }
}

/// The `count` cells at the front of `input`, each within `cols` by `rows`.
pub open spec fn parse_cells(input: Seq<u8>, count: nat, cols: u16, rows: u16) -> Parsed<
    Seq<CellView>,
>
    decreases count,
{
    if count == 0 {
        Ok((Seq::empty(), input))
    } else {
        match parse_cells(input, (count - 1) as nat, cols, rows) {
            Err(error) => Err(error),
            Ok((cells, rest)) => match TerminalCell::parse(rest) {
                Err(error) => Err(error),
                Ok((cell, rest)) => if cell.x >= cols || cell.y >= rows {
                    Err(WireError::CellOutsideGrid)
                } else {
                    Ok((cells.push(cell), rest))
                },
            },
        }
    }
}

/// The cells behind their number at the front of `input`.
pub open spec fn parse_counted_cells(input: Seq<u8>, cols: u16, rows: u16) -> Parsed<
    Seq<CellView>,
> {
    match u32::parse(input) {
        Err(error) => Err(error),
        Ok((count, rest)) => if count > SNAPSHOT_CELL_CAPACITY {
            Err(WireError::CellsExceedCapacity)
        } else {
            parse_cells(rest, count as nat, cols, rows)
        },
    }
}

/// The rows and the cells that follow `head` in `input`, and what they make.
pub open spec fn parse_body(input: Seq<u8>, head: HeadFields) -> Parsed<UpdateView> {
    let (_, (_, (_, (cols, (rows, (cursor, (_, (_, row_count)))))))) = head;
    if row_count > rows {
        Err(WireError::DirtyRowsExceedGrid)
    } else {
        match parse_items::<u16>(input, row_count as nat) {
            Err(error) => Err(error),
            Ok((dirty_rows, rest)) => match parse_counted_cells(rest, cols, rows) {
                Err(error) => Err(error),
                Ok((cells, rest)) => {
                    let update = update_of(head, dirty_rows, cells);
                    if cursor_outside(cursor, cols, rows) {
                        Err(WireError::CursorOutsideGrid)
                    } else {
                        match update.objection() {
                            Some(error) => Err(WireError::InvalidUpdate(error)),
                            None => Ok((update, rest)),
                        }
                    }
                },
            },
        }
    }
}

pub open spec fn cursor_outside(cursor: Option<(u16, u16)>, cols: u16, rows: u16) -> bool {
    match cursor {
        Some((x, y)) => x >= cols || y >= rows,
        None => false,
    }
}

proof fn lemma_cells_error(input: Seq<u8>, failed: nat, count: nat, cols: u16, rows: u16)
    requires
        failed <= count,
        parse_cells(input, failed, cols, rows) is Err,
    ensures
        parse_cells(input, count, cols, rows) is Err,
        parse_cells(input, count, cols, rows)->Err_0 == parse_cells(
            input,
            failed,
            cols,
            rows,
        )->Err_0,
    decreases count,
{
    if failed < count {
        lemma_cells_error(input, failed, (count - 1) as nat, cols, rows);
    }
}

proof fn lemma_cells_round_trip(cells: Seq<CellView>, cols: u16, rows: u16, rest: Seq<u8>)
    requires
        items_refusal::<TerminalCell>(cells) is None,
        forall|i: int|
            0 <= i < cells.len() ==> {
                &&& TerminalCell::readable(#[trigger] cells[i])
                &&& cells[i].x < cols
                &&& cells[i].y < rows
            },
    ensures
        parse_cells(items_form::<TerminalCell>(cells) + rest, cells.len(), cols, rows) == Parsed::<
            Seq<CellView>,
        >::Ok((cells, rest)),
    decreases cells.len(),
{
    if cells.len() == 0 {
        assert(items_form::<TerminalCell>(cells) + rest =~= rest);
        assert(cells =~= Seq::empty());
    } else {
        let initial = cells.drop_last();
        let last = TerminalCell::form(cells.last());
        assert forall|i: int| 0 <= i < initial.len() implies {
            &&& TerminalCell::readable(#[trigger] initial[i])
            &&& initial[i].x < cols
            &&& initial[i].y < rows
        } by {
            assert(initial[i] == cells[i]);
        }
        lemma_cells_round_trip(initial, cols, rows, last + rest);
        TerminalCell::round_trip(cells.last(), rest);
        assert(items_form::<TerminalCell>(cells) + rest =~= items_form::<TerminalCell>(initial) + (
        last + rest));
        assert(cells =~= initial.push(cells.last()));
    }
}

fn get_cells(decoder: &mut Decoder<'_>, count: usize, cols: u16, rows: u16) -> (result: Result<
    Vec<TerminalCell>,
    WireError,
>)
    ensures
        match parse_cells(old(decoder)@, count as nat, cols, rows) {
            Ok((cells, rest)) => result is Ok && views(result->Ok_0@) == cells && final(decoder)@
                == rest,
            Err(error) => result is Err && result->Err_0 == error,
        },
{
    let ghost input = decoder@;
    let mut cells: Vec<TerminalCell> = Vec::new();
    let mut index: usize = 0;
    proof {
        assert(views(cells@) =~= Seq::empty());
    }
    while index < count
        invariant
            index <= count,
            input == old(decoder)@,
            parse_cells(input, index as nat, cols, rows) == Parsed::<Seq<CellView>>::Ok(
                (views(cells@), decoder@),
            ),
        decreases count - index,
    {
        let ghost before = cells@;
        match TerminalCell::get(decoder) {
            Ok(cell) => {
                if cell.x >= cols || cell.y >= rows {
                    proof {
                        lemma_cells_error(input, (index + 1) as nat, count as nat, cols, rows);
                    }
                    return Err(WireError::CellOutsideGrid);
                }
                cells.push(cell);
                proof {
                    assert(views(cells@) =~= views(before).push(cell@));
                }
            },
            Err(error) => {
                proof {
                    lemma_cells_error(input, (index + 1) as nat, count as nat, cols, rows);
                }
                return Err(error);
            },
        }
        index += 1;
    }
    Ok(cells)
}

fn get_counted_cells(decoder: &mut Decoder<'_>, cols: u16, rows: u16) -> (result: Result<
    Vec<TerminalCell>,
    WireError,
>)
    ensures
        match parse_counted_cells(old(decoder)@, cols, rows) {
            Ok((cells, rest)) => result is Ok && views(result->Ok_0@) == cells && final(decoder)@
                == rest,
            Err(error) => result is Err && result->Err_0 == error,
        },
{
    match u32::get(decoder) {
        Err(error) => Err(error),
        Ok(count) => {
            if count as usize > SNAPSHOT_CELL_CAPACITY {
                return Err(WireError::CellsExceedCapacity);
            }
            get_cells(decoder, count as usize, cols, rows)
        },
    }
}

pub open spec fn body_form(update: UpdateView) -> Seq<u8> {
    items_form::<u16>(update.dirty_rows) + (u32::form(update.cells.len() as u32) + items_form::<
        TerminalCell,
    >(update.cells))
}

/// The objection to an update that is valid in itself.
pub open spec fn valid_update_refusal(update: UpdateView) -> Option<WireError> {
    match TerminalLifecycle::refusal(update.lifecycle) {
        Some(error) => Some(error),
        None => if update.dirty_rows.len() > u16::MAX {
            Some(WireError::TooManyDirtyRows)
        } else if update.cells.len() > u32::MAX {
            Some(WireError::TooManyCells)
        } else {
            items_refusal::<TerminalCell>(update.cells)
        },
    }
}

proof fn lemma_numbers_accepted(numbers: Seq<u16>)
    ensures
        items_refusal::<u16>(numbers) is None,
    decreases numbers.len(),
{
    if numbers.len() > 0 {
        lemma_numbers_accepted(numbers.drop_last());
    }
}

proof fn lemma_body_round_trip(update: UpdateView, rest: Seq<u8>)
    requires
        update.objection() is None,
        valid_update_refusal(update) is None,
        TerminalUpdate::readable(update),
    ensures
        parse_body(body_form(update) + rest, head_fields(update)) == Parsed::<UpdateView>::Ok(
            (update, rest),
        ),
{
    let cells = items_form::<TerminalCell>(update.cells);
    let count = u32::form(update.cells.len() as u32);
    lemma_numbers_accepted(update.dirty_rows);
    lemma_items_round_trip::<u16>(update.dirty_rows, count + (cells + rest));
    u32::round_trip(update.cells.len() as u32, cells + rest);
    lemma_rows_bounded(update.dirty_rows, update.rows);
    assert forall|i: int| 0 <= i < update.cells.len() implies {
        &&& TerminalCell::readable(#[trigger] update.cells[i])
        &&& update.cells[i].x < update.cols
        &&& update.cells[i].y < update.rows
    } by {}
    lemma_cells_round_trip(update.cells, update.cols, update.rows, rest);
    assert(crate::resident_core::wire::format::items_received::<u16>(update.dirty_rows)
        =~= update.dirty_rows);
    assert(body_form(update) + rest =~= items_form::<u16>(update.dirty_rows) + (count + (cells
        + rest)));
    assert(update_of(head_fields(update), update.dirty_rows, update.cells) == update);
}

/// Rows that are named once each are no more than there are.
proof fn lemma_rows_bounded(rows: Seq<u16>, height: u16)
    requires
        crate::terminal::valid_rows(rows, height),
    ensures
        rows.len() <= height,
        forall|i: int| 0 <= i < rows.len() ==> #[trigger] rows[i] >= i,
    decreases rows.len(),
{
    if rows.len() > 0 {
        let initial = rows.drop_last();
        assert(crate::terminal::valid_rows(initial, height)) by {
            assert forall|i: int, j: int| 0 <= i < j < initial.len() implies initial[i]
                < initial[j] by {
                assert(rows[i] < rows[j]);
            }
            assert forall|i: int| 0 <= i < initial.len() implies #[trigger] initial[i] < height by {
                assert(rows[i] < height);
            }
        }
        lemma_rows_bounded(initial, height);
        assert forall|i: int| 0 <= i < rows.len() implies #[trigger] rows[i] >= i by {
            if i < initial.len() {
                assert(initial[i] >= i);
            } else if i > 0 {
                assert(initial[i - 1] >= i - 1);
                assert(rows[i - 1] < rows[i]);
            }
        }
        assert(rows[rows.len() - 1] < height);
    }
}

/// Appends the fields of `update` before its rows, with the number of rows.
#[verifier::rlimit(60)]
fn put_head(update: &TerminalUpdate, output: &mut Vec<u8>) -> (result: Result<(), WireError>)
    ensures
        match TerminalLifecycle::refusal(update.lifecycle@) {
            Some(error) => result == Err::<(), WireError>(error),
            None => if update.dirty_rows@.len() > u16::MAX {
                result == Err::<(), WireError>(WireError::TooManyDirtyRows)
            } else {
                result is Ok && final(output)@ == old(output)@ + HeadForm::form(
                    head_fields(update@),
                )
            },
        },
{
    let _ = put_optional(&update.base_revision, output);
    let _ = update.revision.put(output);
    if let Err(error) = update.lifecycle.put(output) {
        return Err(error);
    }
    let _ = (update.cols, update.rows).put(output);
    let _ = put_optional(&update.cursor, output);
    let _ = (update.default_fg, update.default_bg).put(output);
    if update.dirty_rows.len() > 0xffff {
        return Err(WireError::TooManyDirtyRows);
    }
    let _ = (update.dirty_rows.len() as u16).put(output);
    proof {
        assert(output@ =~= old(output)@ + HeadForm::form(head_fields(update@)));
    }
    Ok(())
}

#[verifier::rlimit(60)]
proof fn lemma_head_round_trip(update: UpdateView, rest: Seq<u8>)
    requires
        update.default_fg.len() == 3,
        update.default_bg.len() == 3,
        TerminalLifecycle::refusal(update.lifecycle) is None,
    ensures
        HeadForm::parse(HeadForm::form(head_fields(update)) + rest) == Parsed::<HeadFields>::Ok(
            (head_fields(update), rest),
        ),
{
    HeadForm::round_trip(head_fields(update), rest);
}

impl Wire for TerminalUpdate {
    open spec fn form(value: UpdateView) -> Seq<u8> {
        HeadForm::form(head_fields(value)) + body_form(value)
    }

    open spec fn refusal(value: UpdateView) -> Option<WireError> {
        match value.objection() {
            Some(error) => Some(WireError::InvalidUpdate(error)),
            None => valid_update_refusal(value),
        }
    }

    open spec fn parse(input: Seq<u8>) -> Parsed<UpdateView> {
        match HeadForm::parse(input) {
            Err(error) => Err(error),
            Ok((head, rest)) => parse_body(rest, head),
        }
    }

    open spec fn readable(value: UpdateView) -> bool {
        &&& value.default_fg.len() == 3
        &&& value.default_bg.len() == 3
        &&& value.cells.len() <= SNAPSHOT_CELL_CAPACITY
        &&& forall|i: int|
            0 <= i < value.cells.len() ==> TerminalCell::readable(#[trigger] value.cells[i])
    }

    open spec fn received(value: UpdateView) -> UpdateView {
        value
    }

    proof fn round_trip(value: UpdateView, rest: Seq<u8>) {
        let body = body_form(value) + rest;
        lemma_head_round_trip(value, body);
        lemma_body_round_trip(value, rest);
        assert(Self::form(value) + rest =~= HeadForm::form(head_fields(value)) + body);
    }

    fn put(&self, output: &mut Vec<u8>) -> (result: Result<(), WireError>) {
        if let Err(error) = self.validate() {
            return Err(WireError::InvalidUpdate(error));
        }
        if let Err(error) = put_head(self, output) {
            return Err(error);
        }
        let ghost with_head = output@;
        proof {
            lemma_numbers_accepted(self.dirty_rows@);
            assert(views(self.dirty_rows@) =~= self.dirty_rows@);
        }
        let _ = put_items(&self.dirty_rows, output);
        if self.cells.len() > 0xffff_ffff {
            return Err(WireError::TooManyCells);
        }
        let _ = (self.cells.len() as u32).put(output);
        if let Err(error) = put_items(&self.cells, output) {
            return Err(error);
        }
        proof {
            assert(output@ =~= with_head + body_form(self@));
            assert(output@ =~= old(output)@ + Self::form(self@));
        }
        Ok(())
    }

    fn get(decoder: &mut Decoder<'_>) -> (result: Result<TerminalUpdate, WireError>) {
        let (
            base_revision,
            (
                revision,
                (lifecycle, (cols, (rows, (cursor, (default_fg, (default_bg, row_count)))))),
            ),
        ) = match HeadForm::get(decoder) {
            Err(error) => return Err(error),
            Ok(head) => head,
        };
        if row_count > rows {
            return Err(WireError::DirtyRowsExceedGrid);
        }
        let dirty_rows: Vec<u16> = match get_items(decoder, row_count as usize) {
            Err(error) => return Err(error),
            Ok(dirty_rows) => dirty_rows,
        };
        proof {
            assert(views(dirty_rows@) =~= dirty_rows@);
        }
        let cells = match get_counted_cells(decoder, cols, rows) {
            Err(error) => return Err(error),
            Ok(cells) => cells,
        };
        if let Some((x, y)) = cursor.0 {
            if x >= cols || y >= rows {
                return Err(WireError::CursorOutsideGrid);
            }
        }
        let update = TerminalUpdate {
            base_revision: base_revision.0,
            revision,
            lifecycle,
            cols,
            rows,
            cursor: cursor.0,
            default_fg,
            default_bg,
            dirty_rows,
            cells,
        };
        match update.validate() {
            Err(error) => Err(WireError::InvalidUpdate(error)),
            Ok(_) => Ok(update),
        }
    }
}

} // verus!
