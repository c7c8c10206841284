//! Terminal contents as a grid of cells, and updates to some of its rows.

use crate::sequences::views;
use crate::text::{decimal, decimal_chars};
use vstd::multiset::*;
use vstd::prelude::*;
use vstd::seq_lib::*;
use vstd::string::*;

verus! {

/// The colors of a terminal: those of text and of the ground behind it, of the
/// cursor, and the sixteen that programs name.
#[derive(Clone, Copy, Debug)]
pub struct TerminalTheme {
    pub foreground: [u8; 3],
    pub background: [u8; 3],
    pub cursor: [u8; 3],
    pub palette: [[u8; 3]; 16],
}

/// A terminal's extent in cells, and a cell's in pixels.
#[derive(Clone, Copy, Debug, PartialEq, Eq, Structural)]
pub struct TerminalSize {
    pub cols: u16,
    pub rows: u16,
    pub cell_width_px: u16,
    pub cell_height_px: u16,
}

impl TerminalSize {
    pub fn new(cols: u16, rows: u16, cell_width_px: u16, cell_height_px: u16) -> (size: Self)
        ensures
            size == (TerminalSize { cols, rows, cell_width_px, cell_height_px }),
    {
        TerminalSize { cols, rows, cell_width_px, cell_height_px }
    }
}

/// How the process of a terminal session fares.
#[derive(Debug, PartialEq, Eq)]
pub enum TerminalLifecycle {
    Running,
    Exited,
    Failed(String),
}

#[verifier::ext_equal]
pub enum LifecycleView {
    Running,
    Exited,
    Failed(Seq<char>),
}

impl View for TerminalLifecycle {
    type V = LifecycleView;

    open spec fn view(&self) -> LifecycleView {
        match *self {
            TerminalLifecycle::Running => LifecycleView::Running,
            TerminalLifecycle::Exited => LifecycleView::Exited,
            TerminalLifecycle::Failed(error) => LifecycleView::Failed(error@),
        }
    }
}

impl Clone for TerminalLifecycle {
    fn clone(&self) -> (copy: Self)
        ensures
            copy == *self,
    {
        match self {
            TerminalLifecycle::Running => TerminalLifecycle::Running,
            TerminalLifecycle::Exited => TerminalLifecycle::Exited,
            TerminalLifecycle::Failed(error) => TerminalLifecycle::Failed(error.clone()),
        }
    }
}

impl TerminalLifecycle {
    pub fn same(&self, other: &Self) -> (same: bool)
        ensures
            same == (self@ == other@),
    {
        match (self, other) {
            (TerminalLifecycle::Running, TerminalLifecycle::Running) => true,
            (TerminalLifecycle::Exited, TerminalLifecycle::Exited) => true,
            (TerminalLifecycle::Failed(left), TerminalLifecycle::Failed(right)) => *left == *right,
            _ => false,
        }
    }
}

/// One cell of the grid.
#[derive(Debug, PartialEq, Eq)]
pub struct TerminalCell {
    pub x: u16,
    pub y: u16,
    pub width: u8,
    pub text: String,
    pub fg: [u8; 3],
    pub bg: [u8; 3],
    pub has_explicit_bg: bool,
}

#[verifier::ext_equal]
pub struct CellView {
    pub x: u16,
    pub y: u16,
    pub width: u8,
    pub text: Seq<char>,
    pub fg: Seq<u8>,
    pub bg: Seq<u8>,
    pub has_explicit_bg: bool,
}

impl View for TerminalCell {
    type V = CellView;

    open spec fn view(&self) -> CellView {
        CellView {
            x: self.x,
            y: self.y,
            width: self.width,
            text: self.text@,
            fg: self.fg@,
            bg: self.bg@,
            has_explicit_bg: self.has_explicit_bg,
        }
    }
}

impl Clone for TerminalCell {
    fn clone(&self) -> (copy: Self)
        ensures
            copy == *self,
    {
        TerminalCell {
            x: self.x,
            y: self.y,
            width: self.width,
            text: self.text.clone(),
            fg: self.fg,
            bg: self.bg,
            has_explicit_bg: self.has_explicit_bg,
        }
    }
}

/// What is wrong with an update.
#[derive(Clone, Copy, Debug, PartialEq, Eq, Structural)]
pub enum UpdateError {
    ZeroGeometry,
    InvalidDirtyRows,
    MissingRows,
    IncompleteRows,
    CellOutsideDirtyRows,
    CursorOutsideGrid,
}

impl UpdateError {
    pub open spec fn spec_message(self) -> Seq<char> {
        match self {
            UpdateError::ZeroGeometry => "terminal update has zero geometry"@,
            UpdateError::InvalidDirtyRows => "terminal update has invalid dirty rows"@,
            UpdateError::MissingRows => "full terminal update does not contain every row"@,
            UpdateError::IncompleteRows => "full terminal update rows are not complete"@,
            UpdateError::CellOutsideDirtyRows => {
                "terminal update cell is outside its dirty rows"@
            },
            UpdateError::CursorOutsideGrid => "terminal update cursor is outside the grid"@,
        }
    }

    pub fn message(self) -> (message: String)
        ensures
            message@ == self.spec_message(),
    {
        match self {
            UpdateError::ZeroGeometry => "terminal update has zero geometry",
            UpdateError::InvalidDirtyRows => "terminal update has invalid dirty rows",
            UpdateError::MissingRows => "full terminal update does not contain every row",
            UpdateError::IncompleteRows => "full terminal update rows are not complete",
            UpdateError::CellOutsideDirtyRows => "terminal update cell is outside its dirty rows",
            UpdateError::CursorOutsideGrid => "terminal update cursor is outside the grid",
        }.to_owned()
    }
}

/// Whether `rows` names rows of a grid of `height` rows, each once, in order.
pub open spec fn valid_rows(rows: Seq<u16>, height: u16) -> bool {
    &&& forall|i: int, j: int| 0 <= i < j < rows.len() ==> rows[i] < rows[j]
    &&& forall|i: int| 0 <= i < rows.len() ==> #[trigger] rows[i] < height
}

/// Whether `cell` belongs to an update of `dirty_rows`.
pub open spec fn cell_in_rows(
    x: u16,
    y: u16,
    width: u8,
    cols: u16,
    rows: u16,
    dirty_rows: Seq<u16>,
) -> bool {
    x < cols && y < rows && width <= 2 && dirty_rows.contains(y)
}

pub open spec fn cells_in_rows(
    cells: Seq<CellView>,
    cols: u16,
    rows: u16,
    dirty_rows: Seq<u16>,
) -> bool {
    forall|i: int|
        0 <= i < cells.len() ==> cell_in_rows(
            (#[trigger] cells[i]).x,
            cells[i].y,
            cells[i].width,
            cols,
            rows,
            dirty_rows,
        )
}

/// The first objection to an update of a grid of `cols` by `rows` cells, which
/// is full unless it builds on a revision.
pub open spec fn update_objection(
    full: bool,
    cols: u16,
    rows: u16,
    cursor: Option<(u16, u16)>,
    dirty_rows: Seq<u16>,
    cells: Seq<CellView>,
) -> Option<UpdateError> {
    if cols == 0 || rows == 0 {
        Some(UpdateError::ZeroGeometry)
    } else if !valid_rows(dirty_rows, rows) {
        Some(UpdateError::InvalidDirtyRows)
    } else if full && dirty_rows.len() != rows {
        Some(UpdateError::MissingRows)
    } else if full && !(forall|i: int| 0 <= i < dirty_rows.len() ==> #[trigger] dirty_rows[i] == i) {
        Some(UpdateError::IncompleteRows)
    } else if !cells_in_rows(cells, cols, rows, dirty_rows) {
        Some(UpdateError::CellOutsideDirtyRows)
    } else {
        match cursor {
            Some((x, y)) if x >= cols || y >= rows => Some(UpdateError::CursorOutsideGrid),
            _ => None,
        }
    }
}

fn check_rows(rows: &Vec<u16>, height: u16) -> (valid: bool)
    ensures
        valid == valid_rows(rows@, height),
{
    let mut index: usize = 0;
    while index < rows.len()
        invariant
            index <= rows@.len(),
            forall|i: int, j: int| 0 <= i < j < index ==> rows@[i] < rows@[j],
            forall|i: int| 0 <= i < index ==> #[trigger] rows@[i] < height,
        decreases rows@.len() - index,
    {
        if rows[index] >= height {
            return false;
        }
        if index > 0 && rows[index - 1] >= rows[index] {
            proof {
                assert(rows@[index - 1] >= rows@[index as int]);
            }
            return false;
        }
        index += 1;
    }
    true
}

fn rows_are_complete(rows: &Vec<u16>) -> (complete: bool)
    ensures
        complete == (forall|i: int| 0 <= i < rows@.len() ==> #[trigger] rows@[i] == i),
{
    let mut index: usize = 0;
    while index < rows.len()
        invariant
            index <= rows@.len(),
            forall|i: int| 0 <= i < index ==> #[trigger] rows@[i] == i,
        decreases rows@.len() - index,
    {
        if rows[index] as usize != index {
            return false;
        }
        index += 1;
    }
    true
}

/// For each row below `height`, whether `rows` names it.
fn row_marks(rows: &Vec<u16>, height: u16) -> (marks: Vec<bool>)
    requires
        forall|i: int| 0 <= i < rows@.len() ==> #[trigger] rows@[i] < height,
    ensures
        marks@.len() == height,
        forall|y: int| 0 <= y < height ==> #[trigger] marks@[y] == rows@.contains(y as u16),
{
    let mut marks: Vec<bool> = Vec::new();
    let mut row: u16 = 0;
    while row < height
        invariant
            row <= height,
            marks@.len() == row,
            forall|y: int| 0 <= y < row ==> !(#[trigger] marks@[y]),
        decreases height - row,
    {
        marks.push(false);
        row += 1;
    }
    let mut index: usize = 0;
    while index < rows.len()
        invariant
            index <= rows@.len(),
            marks@.len() == height,
            forall|i: int| 0 <= i < rows@.len() ==> #[trigger] rows@[i] < height,
            forall|y: int|
                0 <= y < height ==> #[trigger] marks@[y] == rows@.take(index as int).contains(
                    y as u16,
                ),
        decreases rows@.len() - index,
    {
        let ghost before = marks@;
        let marked = rows[index] as usize;
        marks.set(marked, true);
        index += 1;
        proof {
            let earlier = rows@.take(index - 1);
            let named = rows@.take(index as int);
            assert(named =~= earlier.push(rows@[index - 1]));
            assert forall|y: int| 0 <= y < height implies #[trigger] marks@[y] == named.contains(
                y as u16,
            ) by {
                assert(before[y] == earlier.contains(y as u16));
                if y == marked {
                    assert(named[index - 1] == y as u16);
                } else if earlier.contains(y as u16) {
                    let k = choose|k: int| 0 <= k < earlier.len() && earlier[k] == y as u16;
                    assert(named[k] == y as u16);
                }
            }
        }
    }
    proof {
        assert(rows@.take(index as int) =~= rows@);
    }
    marks
}

fn check_cells(
    cells: &Vec<TerminalCell>,
    cols: u16,
    rows: u16,
    dirty_rows: &Vec<u16>,
) -> (valid: bool)
    requires
        valid_rows(dirty_rows@, rows),
    ensures
        valid == cells_in_rows(views(cells@), cols, rows, dirty_rows@),
{
    let marks = row_marks(dirty_rows, rows);
    let mut index: usize = 0;
    while index < cells.len()
        invariant
            index <= cells@.len(),
            marks@.len() == rows,
            forall|y: int|
                0 <= y < rows ==> #[trigger] marks@[y] == dirty_rows@.contains(y as u16),
            forall|i: int|
                0 <= i < index ==> cell_in_rows(
                    (#[trigger] cells@[i]).x,
                    cells@[i].y,
                    cells@[i].width,
                    cols,
                    rows,
                    dirty_rows@,
                ),
        decreases cells@.len() - index,
    {
        let cell = &cells[index];
        if cell.x >= cols || cell.y >= rows || cell.width > 2 || !marks[cell.y as usize] {
            proof {
                assert(views(cells@)[index as int] == cell@);
            }
            return false;
        }
        index += 1;
    }
    proof {
        assert forall|i: int| 0 <= i < views(cells@).len() implies cell_in_rows(
            (#[trigger] views(cells@)[i]).x,
            views(cells@)[i].y,
            views(cells@)[i].width,
            cols,
            rows,
            dirty_rows@,
        ) by {
            assert(views(cells@)[i] == cells@[i]@);
        }
    }
    true
}

/// Checks an update of a grid of `cols` by `rows` cells.
pub fn check_update(
    full: bool,
    cols: u16,
    rows: u16,
    cursor: Option<(u16, u16)>,
    dirty_rows: &Vec<u16>,
    cells: &Vec<TerminalCell>,
) -> (result: Result<(), UpdateError>)
    ensures
        match update_objection(full, cols, rows, cursor, dirty_rows@, views(cells@)) {
            None => result is Ok,
            Some(error) => result == Err::<(), UpdateError>(error),
        },
{
    if cols == 0 || rows == 0 {
        return Err(UpdateError::ZeroGeometry);
    }
    if !check_rows(dirty_rows, rows) {
        return Err(UpdateError::InvalidDirtyRows);
    }
    if full && dirty_rows.len() != rows as usize {
        return Err(UpdateError::MissingRows);
    }
    if full && !rows_are_complete(dirty_rows) {
        return Err(UpdateError::IncompleteRows);
    }
    if !check_cells(cells, cols, rows, dirty_rows) {
        return Err(UpdateError::CellOutsideDirtyRows);
    }
    if let Some((x, y)) = cursor {
        if x >= cols || y >= rows {
            return Err(UpdateError::CursorOutsideGrid);
        }
    }
    Ok(())
}

/// Whether one cell stands before another, row by row.
pub open spec fn precedes(left: TerminalCell, right: TerminalCell) -> bool {
    left.y < right.y || (left.y == right.y && left.x <= right.x)
}

pub open spec fn in_grid_order(cells: Seq<TerminalCell>) -> bool {
    forall|i: int, j: int|
        0 <= i < j < cells.len() ==> precedes(#[trigger] cells[i], #[trigger] cells[j])
}

/// The cells of rows that `rows` does not name.
pub open spec fn outside_rows(rows: Seq<u16>) -> spec_fn(TerminalCell) -> bool {
    |cell: TerminalCell| !rows.contains(cell.y)
}

fn cell_precedes(left: &TerminalCell, right: &TerminalCell) -> (result: bool)
    ensures
        result == precedes(*left, *right),
{
    left.y < right.y || (left.y == right.y && left.x <= right.x)
}

/// Moves the last of `from` behind `to`.
fn move_last(from: &mut Vec<TerminalCell>, to: &mut Vec<TerminalCell>)
    requires
        old(from)@.len() > 0,
    ensures
        final(from)@ == old(from)@.drop_last(),
        final(to)@ == old(to)@.push(old(from)@.last()),
        final(from)@.to_multiset().add(final(to)@.to_multiset()) == old(
            from,
        )@.to_multiset().add(old(to)@.to_multiset()),
{
    proof {
        broadcast use group_to_multiset_ensures;

        let all = from@;
        assert(all =~= all.drop_last().push(all.last()));
        assert(all.to_multiset() =~= all.drop_last().to_multiset().insert(all.last()));
        assert(to@.push(all.last()).to_multiset() =~= to@.to_multiset().insert(all.last()));
        assert(all.drop_last().to_multiset().add(to@.push(all.last()).to_multiset())
            =~= all.to_multiset().add(to@.to_multiset()));
    }
    if let Some(cell) = from.pop() {
        to.push(cell);
    }
}

/// The cells of `cells` in reverse.
fn reversed(mut cells: Vec<TerminalCell>) -> (result: Vec<TerminalCell>)
    ensures
        result@ == cells@.reverse(),
        result@.to_multiset() == cells@.to_multiset(),
{
    let ghost all = cells@;
    let mut result: Vec<TerminalCell> = Vec::new();
    proof {
        broadcast use group_to_multiset_ensures;

        assert(all.to_multiset().add(result@.to_multiset()) =~= all.to_multiset());
    }
    while cells.len() > 0
        invariant
            cells@.len() <= all.len(),
            cells@ == all.take(cells@.len() as int),
            result@ == all.skip(cells@.len() as int).reverse(),
            cells@.to_multiset().add(result@.to_multiset()) == all.to_multiset(),
        decreases cells@.len(),
    {
        let ghost count = cells@.len() as int;
        move_last(&mut cells, &mut result);
        proof {
            assert(all.take(count).drop_last() =~= all.take(count - 1));
            assert(all.skip(count).reverse().push(all[count - 1]) =~= all.skip(
                count - 1,
            ).reverse());
        }
    }
    proof {
        broadcast use group_to_multiset_ensures;

        assert(all.skip(0) =~= all);
        assert(cells@ =~= Seq::empty());
        assert(cells@.to_multiset().add(result@.to_multiset()) =~= result@.to_multiset());
    }
    result
}

/// Whether each of `cells` follows the next, as read from the end.
spec fn in_reverse_order(cells: Seq<TerminalCell>) -> bool {
    forall|i: int, j: int|
        0 <= i < j < cells.len() ==> precedes(#[trigger] cells[j], #[trigger] cells[i])
}

/// Whether every one of `left` precedes every one of `right`.
spec fn all_precede(left: Seq<TerminalCell>, right: Seq<TerminalCell>) -> bool {
    forall|i: int, j: int|
        0 <= i < left.len() && 0 <= j < right.len() ==> precedes(
            #[trigger] left[i],
            #[trigger] right[j],
        )
}

fn merge(left: Vec<TerminalCell>, right: Vec<TerminalCell>) -> (result: Vec<TerminalCell>)
    requires
        in_grid_order(left@),
        in_grid_order(right@),
    ensures
        in_grid_order(result@),
        result@.to_multiset() == left@.to_multiset().add(right@.to_multiset()),
{
    let ghost all = left@.to_multiset().add(right@.to_multiset());
    let mut left = left;
    let mut right = right;
    let mut backwards: Vec<TerminalCell> = Vec::new();
    proof {
        broadcast use group_to_multiset_ensures;

        assert(left@.to_multiset().add(right@.to_multiset()).add(backwards@.to_multiset()) =~= all);
    }
    while left.len() > 0 || right.len() > 0
        invariant
            in_grid_order(left@),
            in_grid_order(right@),
            in_reverse_order(backwards@),
            all_precede(left@, backwards@),
            all_precede(right@, backwards@),
            left@.to_multiset().add(right@.to_multiset()).add(backwards@.to_multiset()) == all,
        decreases left@.len() + right@.len(),
    {
        let from_right = if left.len() == 0 {
            true
        } else if right.len() == 0 {
            false
        } else {
            cell_precedes(&left[left.len() - 1], &right[right.len() - 1])
        };
        let ghost before = (left@, right@, backwards@);
        if from_right {
            move_last(&mut right, &mut backwards);
            proof {
                assert(before.1.last() == before.1[before.1.len() - 1]);
                assert forall|i: int, j: int|
                    0 <= i < left@.len() && 0 <= j < backwards@.len() implies precedes(
                    #[trigger] left@[i],
                    #[trigger] backwards@[j],
                ) by {
                    if j == backwards@.len() - 1 {
                        assert(precedes(left@[i], left@[left@.len() - 1]) || i == left@.len() - 1);
                    }
                }
                let others = left@.to_multiset();
                assert(others.add(right@.to_multiset()).add(backwards@.to_multiset())
                    =~= others.add(right@.to_multiset().add(backwards@.to_multiset())));
                assert(others.add(before.1.to_multiset()).add(before.2.to_multiset())
                    =~= others.add(before.1.to_multiset().add(before.2.to_multiset())));
            }
        } else {
            move_last(&mut left, &mut backwards);
            proof {
                assert(before.0.last() == before.0[before.0.len() - 1]);
                assert forall|i: int, j: int|
                    0 <= i < right@.len() && 0 <= j < backwards@.len() implies precedes(
                    #[trigger] right@[i],
                    #[trigger] backwards@[j],
                ) by {
                    if j == backwards@.len() - 1 {
                        assert(precedes(right@[i], right@[right@.len() - 1]) || i == right@.len()
                            - 1);
                    }
                }
                let others = right@.to_multiset();
                assert(left@.to_multiset().add(others).add(backwards@.to_multiset())
                    =~= others.add(left@.to_multiset().add(backwards@.to_multiset())));
                assert(before.0.to_multiset().add(others).add(before.2.to_multiset())
                    =~= others.add(before.0.to_multiset().add(before.2.to_multiset())));
            }
        }
    }
    proof {
        broadcast use group_to_multiset_ensures;

        assert(left@ =~= Seq::empty());
        assert(right@ =~= Seq::empty());
        assert(backwards@.to_multiset() =~= all);
    }
    reversed(backwards)
}

/// `cells` in grid order.
pub fn sort_cells(cells: Vec<TerminalCell>) -> (result: Vec<TerminalCell>)
    ensures
        in_grid_order(result@),
        result@.to_multiset() == cells@.to_multiset(),
    decreases cells@.len(),
{
    if cells.len() < 2 {
        return cells;
    }
    let ghost all = cells@;
    let mut cells = cells;
    let half = cells.len() / 2;
    let rest = cells.split_off(half);
    proof {
        assert(all =~= cells@ + rest@);
        lemma_multiset_commutative(cells@, rest@);
    }
    merge(sort_cells(cells), sort_cells(rest))
}

/// Replaces the rows `rows` of `cells` by `new`.
pub fn replace_rows(
    cells: &mut Vec<TerminalCell>,
    rows: &Vec<u16>,
    height: u16,
    new: Vec<TerminalCell>,
)
    requires
        valid_rows(rows@, height),
    ensures
        in_grid_order(final(cells)@),
        final(cells)@.to_multiset() == old(cells)@.filter(outside_rows(rows@)).to_multiset().add(
            new@.to_multiset(),
        ),
{
    let marks = row_marks(rows, height);
    let ghost all = cells@;
    let ghost kept = outside_rows(rows@);
    let mut result = new;
    proof {
        broadcast use group_to_multiset_ensures;

        assert(all.skip(all.len() as int) =~= Seq::empty());
        reveal(Seq::filter);
        assert(result@.to_multiset() =~= all.skip(all.len() as int).filter(kept).to_multiset().add(
            new@.to_multiset(),
        ));
    }
    while cells.len() > 0
        invariant
            cells@.len() <= all.len(),
            cells@ == all.take(cells@.len() as int),
            kept == outside_rows(rows@),
            valid_rows(rows@, height),
            marks@.len() == height,
            forall|y: int|
                0 <= y < height ==> #[trigger] marks@[y] == rows@.contains(y as u16),
            result@.to_multiset() == all.skip(cells@.len() as int).filter(kept).to_multiset().add(
                new@.to_multiset(),
            ),
        decreases cells@.len(),
    {
        let ghost count = cells@.len() as int;
        let ghost before = result@;
        let ghost tail = all.skip(count);
        let ghost last = all[count - 1];
        proof {
            broadcast use group_to_multiset_ensures;

            lemma_filter_prepend(tail, last, kept);
            assert(all.skip(count - 1) =~= seq![last] + tail);
        }
        let dirty = {
            let cell = &cells[cells.len() - 1];
            cell.y < height && marks[cell.y as usize]
        };
        proof {
            assert(cells@[count - 1] == last);
            if last.y >= height && rows@.contains(last.y) {
                let k = choose|k: int| 0 <= k < rows@.len() && rows@[k] == last.y;
                assert(rows@[k] < height);
            }
            assert(dirty == !kept(last));
        }
        if let Some(cell) = cells.pop() {
            if !dirty {
                result.push(cell);
                proof {
                    broadcast use group_to_multiset_ensures;

                    lemma_multiset_commutative(seq![last], tail.filter(kept));
                    assert(seq![last].to_multiset() =~= Multiset::singleton(last)) by {
                        assert(seq![last] =~= Seq::empty().push(last));
                        assert(Seq::<TerminalCell>::empty().push(last).to_multiset()
                            =~= Seq::<TerminalCell>::empty().to_multiset().insert(last));
                    }
                    assert(result@.to_multiset() =~= before.to_multiset().insert(last));
                    assert(result@.to_multiset() =~= all.skip(count - 1).filter(
                        kept,
                    ).to_multiset().add(new@.to_multiset()));
                }
            }
        }
        proof {
            assert(all.take(count).drop_last() =~= all.take(count - 1));
        }
    }
    proof {
        assert(all.skip(0) =~= all);
    }
    *cells = sort_cells(result);
}

proof fn lemma_filter_prepend(
    items: Seq<TerminalCell>,
    item: TerminalCell,
    kept: spec_fn(TerminalCell) -> bool,
)
    ensures
        (seq![item] + items).filter(kept) == if kept(item) {
            seq![item] + items.filter(kept)
        } else {
            items.filter(kept)
        },
    decreases items.len(),
{
    reveal(Seq::filter);
    let all = seq![item] + items;
    if items.len() == 0 {
        assert(all.drop_last() =~= Seq::empty());
        assert(all.last() == item);
        assert(Seq::<TerminalCell>::empty().filter(kept) =~= Seq::empty());
        assert(items.filter(kept) =~= Seq::empty());
        assert(all.filter(kept) =~= if kept(item) {
            seq![item] + items.filter(kept)
        } else {
            items.filter(kept)
        });
    } else {
        assert(all.drop_last() =~= seq![item] + items.drop_last());
        lemma_filter_prepend(items.drop_last(), item, kept);
        assert(all.filter(kept) =~= if kept(item) {
            seq![item] + items.filter(kept)
        } else {
            items.filter(kept)
        });
    }
}

proof fn lemma_filter_count(
    cells: Seq<TerminalCell>,
    kept: spec_fn(TerminalCell) -> bool,
    cell: TerminalCell,
)
    ensures
        cells.filter(kept).to_multiset().count(cell) == if kept(cell) {
            cells.to_multiset().count(cell)
        } else {
            0
        },
    decreases cells.len(),
{
    broadcast use group_to_multiset_ensures;

    reveal(Seq::filter);
    if cells.len() > 0 {
        let rest = cells.drop_last();
        lemma_filter_count(rest, kept, cell);
        assert(cells =~= rest.push(cells.last()));
        assert(cells.to_multiset() =~= rest.to_multiset().insert(cells.last()));
        if kept(cells.last()) {
            assert(cells.filter(kept) =~= rest.filter(kept).push(cells.last()));
            assert(cells.filter(kept).to_multiset() =~= rest.filter(kept).to_multiset().insert(
                cells.last(),
            ));
        }
    }
}

/// Replacing rows leaves the cells of all other rows as they were, and of the
/// rows themselves nothing but the new cells.
pub proof fn law_only_named_rows_change(
    before: Seq<TerminalCell>,
    rows: Seq<u16>,
    new: Seq<TerminalCell>,
    after: Seq<TerminalCell>,
    cell: TerminalCell,
)
    requires
        forall|i: int| 0 <= i < new.len() ==> rows.contains((#[trigger] new[i]).y),
        after.to_multiset() == before.filter(outside_rows(rows)).to_multiset().add(
            new.to_multiset(),
        ),
    ensures
        after.to_multiset().count(cell) == if rows.contains(cell.y) {
            new.to_multiset().count(cell)
        } else {
            before.to_multiset().count(cell)
        },
{
    broadcast use group_to_multiset_ensures;

    lemma_filter_count(before, outside_rows(rows), cell);
    if !rows.contains(cell.y) && new.to_multiset().count(cell) > 0 {
        assert(new.contains(cell));
        let i = new.index_of(cell);
        assert(rows.contains(new[i].y));
    }
}

/// What `law_only_named_rows_change` says, of every cell of an update whose cells
/// lie in its rows.
pub proof fn lemma_rows_replaced(
    before: Seq<TerminalCell>,
    rows: Seq<u16>,
    new: Seq<TerminalCell>,
    cols: u16,
    height: u16,
    after: Seq<TerminalCell>,
)
    requires
        cells_in_rows(views(new), cols, height, rows),
        after.to_multiset() == before.filter(outside_rows(rows)).to_multiset().add(
            new.to_multiset(),
        ),
    ensures
        forall|cell: TerminalCell| #[trigger]
            after.to_multiset().count(cell) == if rows.contains(cell.y) {
                new.to_multiset().count(cell)
            } else {
                before.to_multiset().count(cell)
            },
{
    assert forall|i: int| 0 <= i < new.len() implies rows.contains((#[trigger] new[i]).y) by {
        assert(views(new)[i] == new[i]@);
    }
    assert forall|cell: TerminalCell| #[trigger]
        after.to_multiset().count(cell) == if rows.contains(cell.y) {
            new.to_multiset().count(cell)
        } else {
            before.to_multiset().count(cell)
        } by {
        law_only_named_rows_change(before, rows, new, after, cell);
    }
}

/// An update is taken exactly where it fits: the grid has cells, the rows are
/// named in order, each once and all of them where it is full, every cell lies
/// in one of them and is at most two columns wide, and the cursor lies in the
/// grid.
pub proof fn law_fitting_updates_are_taken(
    full: bool,
    cols: u16,
    rows: u16,
    cursor: Option<(u16, u16)>,
    dirty_rows: Seq<u16>,
    cells: Seq<CellView>,
)
    ensures
        update_objection(full, cols, rows, cursor, dirty_rows, cells) is None <==> {
            &&& cols > 0 && rows > 0
            &&& forall|i: int| 0 <= i < dirty_rows.len() ==> #[trigger] dirty_rows[i] < rows
            &&& forall|i: int, j: int|
                0 <= i < j < dirty_rows.len() ==> dirty_rows[i] < dirty_rows[j]
            &&& full ==> forall|row: u16| row < rows ==> #[trigger] dirty_rows.contains(row)
            &&& forall|i: int|
                0 <= i < cells.len() ==> {
                    let cell = #[trigger] cells[i];
                    cell.x < cols && cell.y < rows && cell.width <= 2 && dirty_rows.contains(cell.y)
                }
            &&& cursor matches Some((x, y)) ==> x < cols && y < rows
        },
{
    if forall|i: int, j: int| 0 <= i < j < dirty_rows.len() ==> dirty_rows[i] < dirty_rows[j] {
        lemma_ascending_rows(dirty_rows, rows, dirty_rows.len() as int);
    }
    if full && dirty_rows.len() == rows && forall|i: int|
        0 <= i < dirty_rows.len() ==> #[trigger] dirty_rows[i] == i {
        assert forall|row: u16| row < rows implies #[trigger] dirty_rows.contains(row) by {
            assert(dirty_rows[row as int] == row);
        }
    }
}

/// An objection to an update says what does not fit: a grid without cells, a row that
/// is not in the grid or out of order, a row that a full update leaves out, a cell
/// that lies in no named row or is too wide, or a cursor outside the grid.
pub proof fn law_objections_say_what_does_not_fit(
    full: bool,
    cols: u16,
    rows: u16,
    cursor: Option<(u16, u16)>,
    dirty_rows: Seq<u16>,
    cells: Seq<CellView>,
)
    ensures
        ({
            let objection = update_objection(full, cols, rows, cursor, dirty_rows, cells);
            &&& objection == Some(UpdateError::ZeroGeometry) <==> cols == 0 || rows == 0
            &&& objection == Some(UpdateError::InvalidDirtyRows) ==> (exists|i: int|
                0 <= i < dirty_rows.len() && #[trigger] dirty_rows[i] >= rows) || (exists|
                i: int,
                j: int,
            |
                0 <= i < j < dirty_rows.len() && dirty_rows[i] >= dirty_rows[j])
            &&& objection == Some(UpdateError::MissingRows) || objection == Some(
                UpdateError::IncompleteRows,
            ) ==> full && exists|row: u16| row < rows && !#[trigger] dirty_rows.contains(row)
            &&& objection == Some(UpdateError::CellOutsideDirtyRows) ==> exists|i: int|
                0 <= i < cells.len() && {
                    let cell = #[trigger] cells[i];
                    cell.x >= cols || cell.width > 2 || !dirty_rows.contains(cell.y)
                }
            &&& objection == Some(UpdateError::CursorOutsideGrid) ==> cursor is Some && ({
                let (x, y) = cursor->0;
                x >= cols || y >= rows
            })
        }),
{
    if valid_rows(dirty_rows, rows) {
        lemma_ascending_rows(dirty_rows, rows, dirty_rows.len() as int);
        assert forall|i: int| 0 <= i < cells.len() && dirty_rows.contains(
            (#[trigger] cells[i]).y,
        ) implies cells[i].y < rows by {
            let row = dirty_rows.index_of(cells[i].y);
            assert(dirty_rows[row] < rows);
        }
    }
}

/// Rows that are named in order are each at least as great as their place; where
/// all are named, each is its place.
pub proof fn lemma_ascending_rows(dirty_rows: Seq<u16>, rows: u16, count: int)
    requires
        0 <= count <= dirty_rows.len(),
        forall|i: int, j: int| 0 <= i < j < dirty_rows.len() ==> dirty_rows[i] < dirty_rows[j],
    ensures
        forall|i: int| 0 <= i < count ==> #[trigger] dirty_rows[i] >= i,
        (forall|row: u16| row < rows ==> #[trigger] dirty_rows.contains(row)) && (forall|i: int|
            0 <= i < dirty_rows.len() ==> #[trigger] dirty_rows[i] < rows) ==> (forall|i: int|
            0 <= i < count ==> #[trigger] dirty_rows[i] == i) && (count == dirty_rows.len()
            ==> dirty_rows.len() == rows),
    decreases count,
{
    if count > 0 {
        lemma_ascending_rows(dirty_rows, rows, count - 1);
        let last = count - 1;
        if last > 0 {
            assert(dirty_rows[last - 1] < dirty_rows[last]);
        }
        if (forall|row: u16| row < rows ==> #[trigger] dirty_rows.contains(row)) && (forall|i: int|
            0 <= i < dirty_rows.len() ==> #[trigger] dirty_rows[i] < rows) {
            assert(dirty_rows[last] < rows);
            if dirty_rows[last] > last {
                let k = dirty_rows.index_of(last as u16);
                assert(dirty_rows.contains(last as u16));
                assert(dirty_rows[k] == last);
                if k < last {
                    assert(dirty_rows[k] == k);
                } else if k > last {
                    assert(dirty_rows[last] < dirty_rows[k]);
                }
            }
            if count == dirty_rows.len() && dirty_rows.len() < rows {
                let k = dirty_rows.index_of(count as u16);
                assert(dirty_rows.contains(count as u16));
                assert(dirty_rows[k] == k);
            }
        }
    } else if count == dirty_rows.len() && rows > 0 {
        if forall|row: u16| row < rows ==> #[trigger] dirty_rows.contains(row) {
            assert(dirty_rows.contains(0));
        }
    }
}

/// Why an update does not become a snapshot, or part of one.
#[derive(Clone, Copy, Debug, PartialEq, Eq, Structural)]
pub enum SnapshotError {
    DeltaWithoutBase,
    Invalid(UpdateError),
    RevisionGap { local: u64, base: Option<u64> },
    ChangedGeometry,
}

/// How an optional number is written for programmers.
pub open spec fn debug_number(number: Option<u64>) -> Seq<char> {
    match number {
        Some(number) => "Some("@ + decimal_chars(number as nat) + ")"@,
        None => "None"@,
    }
}

pub fn put_debug_number(output: &mut String, number: Option<u64>)
    ensures
        final(output)@ == old(output)@ + debug_number(number),
{
    match number {
        Some(number) => {
            output.append("Some(");
            output.append(decimal(number).as_str());
            output.append(")");
            proof {
                assert(output@ =~= old(output)@ + debug_number(Some(number)));
            }
        },
        None => {
            output.append("None");
        },
    }
}

} // verus!
