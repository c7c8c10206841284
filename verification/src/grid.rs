//! The text on a grid of cells.

use crate::sequences::{first_index, lemma_first_index_none, lemma_first_index_some};
use crate::terminal::TerminalCell;
use vstd::prelude::*;
use vstd::string::*;

verus! {

/// Something with a place on the grid and a text.
pub trait Placed: Sized {
    spec fn place(self) -> (u16, u16);

    spec fn glyph(self) -> Seq<char>;

    fn stands_at(&self, x: u16, y: u16) -> (result: bool)
        ensures
            result == (self.place() == (x, y)),
    ;

    fn glyph_text(&self) -> (text: &str)
        ensures
            text@ == self.glyph(),
    ;
}

impl Placed for TerminalCell {
    open spec fn place(self) -> (u16, u16) {
        (self.x, self.y)
    }

    open spec fn glyph(self) -> Seq<char> {
        self.text@
    }

    fn stands_at(&self, x: u16, y: u16) -> (result: bool) {
        self.x == x && self.y == y
    }

    fn glyph_text(&self) -> (text: &str) {
        self.text.as_str()
    }
}

pub open spec fn placed_at<C: Placed>(x: u16, y: u16) -> spec_fn(C) -> bool {
    |cell: C| cell.place() == (x, y)
}

/// The text of the first cell at a place; a blank where there is none.
pub open spec fn text_at<C: Placed>(cells: Seq<C>, x: u16, y: u16) -> Seq<char> {
    match first_index(cells, placed_at(x, y)) {
        Some(index) => if cells[index].glyph().len() > 0 {
            cells[index].glyph()
        } else {
            seq![' ']
        },
        None => seq![' '],
    }
}

/// The text of the first `cols` places of row `y`.
pub open spec fn row_text<C: Placed>(cells: Seq<C>, y: u16, cols: nat) -> Seq<char>
    decreases cols,
{
    if cols == 0 {
        Seq::empty()
    } else {
        row_text(cells, y, (cols - 1) as nat) + text_at(cells, (cols - 1) as u16, y)
    }
}

/// The text of the first `rows` rows, each with its end.
pub open spec fn grid_chars<C: Placed>(cells: Seq<C>, cols: nat, rows: nat) -> Seq<char>
    decreases rows,
{
    if rows == 0 {
        Seq::empty()
    } else {
        grid_chars(cells, cols, (rows - 1) as nat) + row_text(cells, (rows - 1) as u16, cols)
            + seq!['\n']
    }
}

/// Appends the text at a place.
fn put_text_at<C: Placed>(output: &mut String, cells: &Vec<C>, x: u16, y: u16)
    ensures
        final(output)@ == old(output)@ + text_at(cells@, x, y),
{
    let mut index: usize = 0;
    let ghost here = placed_at::<C>(x, y);
    while index < cells.len()
        invariant
            index <= cells@.len(),
            here == placed_at::<C>(x, y),
            *output == *old(output),
            forall|i: int| 0 <= i < index ==> !here(#[trigger] cells@[i]),
        decreases cells@.len() - index,
    {
        if cells[index].stands_at(x, y) {
            proof {
                lemma_first_index_some(cells@, here, index as int);
            }
            let text = cells[index].glyph_text();
            if text.is_empty() {
                output.push(' ');
                proof {
                    assert(output@ =~= old(output)@ + seq![' ']);
                }
            } else {
                output.append(text);
            }
            return ;
        }
        index += 1;
    }
    proof {
        lemma_first_index_none(cells@, here);
    }
    output.push(' ');
    proof {
        assert(output@ =~= old(output)@ + seq![' ']);
    }
}

/// The text on a grid of `cols` by `rows` places.
pub fn grid_text<C: Placed>(cells: &Vec<C>, cols: u16, rows: u16) -> (text: String)
    ensures
        text@ == grid_chars(cells@, cols as nat, rows as nat),
{
    let mut output = String::new();
    let mut y: u16 = 0;
    proof {
        assert(output@ =~= grid_chars(cells@, cols as nat, 0));
    }
    while y < rows
        invariant
            y <= rows,
            output@ == grid_chars(cells@, cols as nat, y as nat),
        decreases rows - y,
    {
        let mut x: u16 = 0;
        let ghost above = output@;
        proof {
            assert(output@ =~= above + row_text(cells@, y, 0));
        }
        while x < cols
            invariant
                x <= cols,
                output@ == above + row_text(cells@, y, x as nat),
            decreases cols - x,
        {
            put_text_at(&mut output, cells, x, y);
            x += 1;
            proof {
                assert(output@ =~= above + row_text(cells@, y, x as nat));
            }
        }
        output.push('\n');
        y += 1;
        proof {
            assert(output@ =~= grid_chars(cells@, cols as nat, y as nat));
        }
    }
    output
}

/// A place shows the text of the first cell that stands there, and a blank where
/// none does or where its text is empty.
pub proof fn law_places_show_their_cells<C: Placed>(cells: Seq<C>, x: u16, y: u16, index: int)
    ensures
        0 <= index < cells.len() && cells[index].place() == (x, y) && cells[index].glyph().len() > 0
            && (forall|i: int| 0 <= i < index ==> (#[trigger] cells[i]).place() != (x, y))
            ==> text_at(cells, x, y) == cells[index].glyph(),
        0 <= index < cells.len() && cells[index].place() == (x, y) && cells[index].glyph().len()
            == 0 && (forall|i: int| 0 <= i < index ==> (#[trigger] cells[i]).place() != (x, y))
            ==> text_at(cells, x, y) == seq![' '],
        (forall|i: int| 0 <= i < cells.len() ==> (#[trigger] cells[i]).place() != (x, y))
            ==> text_at(cells, x, y) == seq![' '],
{
    let here = placed_at::<C>(x, y);
    if 0 <= index < cells.len() && cells[index].place() == (x, y) && forall|i: int|
        0 <= i < index ==> (#[trigger] cells[i]).place() != (x, y) {
        assert forall|i: int| 0 <= i < index implies !here(#[trigger] cells[i]) by {
            assert(cells[i].place() != (x, y));
        }
        lemma_first_index_some(cells, here, index);
    }
    if forall|i: int| 0 <= i < cells.len() ==> (#[trigger] cells[i]).place() != (x, y) {
        assert forall|i: int| 0 <= i < cells.len() implies !here(#[trigger] cells[i]) by {
            assert(cells[i].place() != (x, y));
        }
        lemma_first_index_none(cells, here);
    }
}

/// A grid reads row by row from the top, each from the left and with its end: what
/// stands further right comes later, and what stands further down later still.
pub proof fn law_grids_read_from_left_to_right<C: Placed>(
    cells: Seq<C>,
    cols: nat,
    rows: nat,
    x: nat,
    y: nat,
)
    requires
        x < cols <= 65535,
        y < rows <= 65535,
    ensures
        ({
            let text = grid_chars(cells, cols, rows);
            let above = grid_chars(cells, cols, y);
            let left = row_text(cells, y as u16, x);
            let here = text_at(cells, x as u16, y as u16);
            let start = (above.len() + left.len()) as int;
            &&& start + here.len() < text.len()
            &&& text.take(above.len() as int) == above
            &&& text.subrange(above.len() as int, start) == left
            &&& text.subrange(start, start + here.len()) == here
            &&& text.last() == '\n'
        }),
{
    let above = grid_chars(cells, cols, y);
    let row = row_text(cells, y as u16, cols);
    let left = row_text(cells, y as u16, x);
    let here = text_at(cells, x as u16, y as u16);
    let text = grid_chars(cells, cols, rows);
    lemma_row_goes_on(cells, y as u16, (x + 1) as nat, cols);
    lemma_grid_goes_on(cells, cols, (y + 1) as nat, rows);
    let upto = grid_chars(cells, cols, (y + 1) as nat);
    assert(upto == above + row + seq!['\n']);
    assert(row_text(cells, y as u16, (x + 1) as nat) == left + here);
    assert(row.take((left + here).len() as int) == left + here);
    let start = (above.len() + left.len()) as int;
    assert(text.take(above.len() as int) =~= above) by {
        assert(text.take(upto.len() as int) == upto);
        assert forall|i: int| 0 <= i < above.len() implies text[i] == above[i] by {
            assert(text.take(upto.len() as int)[i] == text[i]);
            assert(upto[i] == above[i]);
        }
    }
    assert forall|i: int| 0 <= i < (left + here).len() implies text[above.len() + i] == (left
        + here)[i] by {
        assert(text.take(upto.len() as int)[above.len() + i] == text[above.len() + i]);
        assert(upto[above.len() + i] == row[i]);
        assert(row.take((left + here).len() as int)[i] == row[i]);
    }
    assert(text.subrange(above.len() as int, start) =~= left) by {
        assert forall|i: int| 0 <= i < left.len() implies text[above.len() + i] == left[i] by {
            assert((left + here)[i] == left[i]);
        }
    }
    assert(text.subrange(start, start + here.len()) =~= here) by {
        assert forall|i: int| 0 <= i < here.len() implies text[start + i] == here[i] by {
            assert(text[above.len() + (left.len() + i)] == (left + here)[left.len() + i]);
            assert((left + here)[left.len() + i] == here[i]);
        }
    }
}

proof fn lemma_row_goes_on<C: Placed>(cells: Seq<C>, y: u16, shorter: nat, cols: nat)
    requires
        shorter <= cols,
    ensures
        row_text(cells, y, shorter).len() <= row_text(cells, y, cols).len(),
        row_text(cells, y, cols).take(row_text(cells, y, shorter).len() as int) == row_text(
            cells,
            y,
            shorter,
        ),
    decreases cols,
{
    let row = row_text(cells, y, cols);
    let part = row_text(cells, y, shorter);
    if shorter < cols {
        let before = row_text(cells, y, (cols - 1) as nat);
        lemma_row_goes_on(cells, y, shorter, (cols - 1) as nat);
        assert(row.take(part.len() as int) =~= before.take(part.len() as int));
    } else {
        assert(row.take(part.len() as int) =~= part);
    }
}

proof fn lemma_grid_goes_on<C: Placed>(cells: Seq<C>, cols: nat, shorter: nat, rows: nat)
    requires
        0 < shorter <= rows,
    ensures
        grid_chars(cells, cols, shorter).len() <= grid_chars(cells, cols, rows).len(),
        grid_chars(cells, cols, rows).take(grid_chars(cells, cols, shorter).len() as int)
            == grid_chars(cells, cols, shorter),
        grid_chars(cells, cols, rows).last() == '\n',
    decreases rows,
{
    let grid = grid_chars(cells, cols, rows);
    let part = grid_chars(cells, cols, shorter);
    if shorter < rows {
        let before = grid_chars(cells, cols, (rows - 1) as nat);
        lemma_grid_goes_on(cells, cols, shorter, (rows - 1) as nat);
        assert(grid.take(part.len() as int) =~= before.take(part.len() as int));
    } else {
        assert(grid.take(part.len() as int) =~= part);
    }
}

} // verus!
