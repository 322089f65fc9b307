//! Rendering a matrix as text: one line per row, each element followed by a
//! single space, each row closed by a newline. The layout is specified
//! exactly; the per-element text is whatever the caller's formatter
//! produces.

use vstd::prelude::*;

use crate::view::{lemma_row_major_bound, lemma_row_major_inverse};
use crate::Matrix;

verus! {

/// The text of one rendered line: the cells in order, each followed by a
/// single space.
pub open spec fn line_text(cells: Seq<String>) -> Seq<char>
    decreases cells.len(),
{
    if cells.len() == 0 {
        Seq::empty()
    } else {
        line_text(cells.drop_last()) + cells.last()@ + seq![' ']
    }
}

/// The text of the first `rows` rows of a grid of cells laid out in
/// row-major order with `columns` cells per row: each line's cells followed
/// by a newline.
pub open spec fn grid_text(cells: Seq<String>, rows: int, columns: int) -> Seq<char>
    decreases rows,
{
    if rows <= 0 {
        Seq::empty()
    } else {
        grid_text(cells, rows - 1, columns) + line_text(
            cells.subrange((rows - 1) * columns, rows * columns),
        ) + seq!['\n']
    }
}

/// The text of a grid prefix depends only on the cells it covers, so
/// appending cells never changes it.
proof fn lemma_grid_text_grows(c1: Seq<String>, c2: Seq<String>, rows: int, columns: int)
    requires
        0 <= rows,
        0 <= columns,
        rows * columns <= c1.len(),
        c1.len() <= c2.len(),
        forall|k: int| 0 <= k < c1.len() ==> c1[k] == c2[k],
    ensures
        grid_text(c1, rows, columns) == grid_text(c2, rows, columns),
    decreases rows,
{
    if rows > 0 {
        assert((rows - 1) * columns + columns == rows * columns) by (nonlinear_arith);
        assert((rows - 1) * columns >= 0) by (nonlinear_arith)
            requires rows >= 1, columns >= 0;
        lemma_grid_text_grows(c1, c2, rows - 1, columns);
        assert(c1.subrange((rows - 1) * columns, rows * columns) =~= c2.subrange(
            (rows - 1) * columns,
            rows * columns,
        ));
    }
}

/// Relies on `String::push_str`, which appends the given string slice's
/// characters to the end of the string.
#[verifier::external_body]
fn append_str(s: &mut String, t: &str)
    ensures
        final(s)@ == old(s)@ + t@,
{
    s.push_str(t)
}

/// Relies on `String::push`, which appends one character to the end of the
/// string.
#[verifier::external_body]
fn append_char(s: &mut String, c: char)
    ensures
        final(s)@ == old(s)@.push(c),
{
    s.push(c)
}

impl<T> Matrix<T> {
    /// Renders the matrix: for each row in order, every element formatted by
    /// `f` and followed by a single space, with a newline after each row.
    /// The result is exactly the grid text of some sequence of cells, one
    /// per position in row-major order, each a possible output of `f` on the
    /// element at that position.
    pub fn render<F: Fn(&T) -> String>(&self, f: F) -> (out: String)
        requires
            self@.wf(),
            forall|i: int, j: int|
                0 <= i < self@.rows && 0 <= j < self@.columns ==> f.requires(
                    (&self@.at(i, j),),
                ),
        ensures
            exists|cells: Seq<String>|
                {
                    &&& cells.len() == self@.rows * self@.columns
                    &&& (forall|i: int, j: int|
                        0 <= i < self@.rows && 0 <= j < self@.columns ==> f.ensures(
                            (&self@.at(i, j),),
                            #[trigger] cells[i * (self@.columns as int) + j],
                        ))
                    &&& out@ == grid_text(cells, self@.rows as int, self@.columns as int)
                },
    {
        let rows = self.row();
        let columns = self.column();
        let mut out = String::new();
        let ghost mut cells: Seq<String> = Seq::empty();
        proof {
            assert(out@ =~= Seq::<char>::empty());
        }
        let mut i: usize = 0;
        while i < rows
            invariant
                self@.wf(),
                rows as nat == self@.rows,
                columns as nat == self@.columns,
                forall|i2: int, j2: int|
                    0 <= i2 < self@.rows && 0 <= j2 < self@.columns ==> f.requires(
                        (&self@.at(i2, j2),),
                    ),
                i <= rows,
                cells.len() == (i as int) * (columns as int),
                forall|k2: int|
                    0 <= k2 < cells.len() ==> f.ensures(
                        (&self@.data[k2],),
                        #[trigger] cells[k2],
                    ),
                out@ == grid_text(cells, i as int, columns as int),
            decreases rows - i,
        {
            let mut j: usize = 0;
            while j < columns
                invariant
                    self@.wf(),
                    rows as nat == self@.rows,
                    columns as nat == self@.columns,
                    forall|i2: int, j2: int|
                        0 <= i2 < self@.rows && 0 <= j2 < self@.columns ==> f.requires(
                            (&self@.at(i2, j2),),
                        ),
                    i < rows,
                    j <= columns,
                    cells.len() == (i as int) * (columns as int) + (j as int),
                    forall|k2: int|
                        0 <= k2 < cells.len() ==> f.ensures(
                            (&self@.data[k2],),
                            #[trigger] cells[k2],
                        ),
                    out@ == grid_text(cells, i as int, columns as int) + line_text(
                        cells.subrange(
                            (i as int) * (columns as int),
                            (i as int) * (columns as int) + (j as int),
                        ),
                    ),
                decreases columns - j,
            {
                proof {
                    lemma_row_major_bound(i as int, j as int, rows as int, columns as int);
                }
                let cell = f(self.index(i, j));
                append_str(&mut out, cell.as_str());
                append_char(&mut out, ' ');
                proof {
                    let pre = cells;
                    let base = (i as int) * (columns as int);
                    cells = cells.push(cell);
                    lemma_grid_text_grows(pre, cells, i as int, columns as int);
                    assert(cells.subrange(base, base + (j as int)) =~= pre.subrange(
                        base,
                        base + (j as int),
                    ));
                    assert(cells.subrange(base, base + (j as int) + 1).drop_last() =~= cells
                        .subrange(base, base + (j as int)));
                    assert(cells.subrange(base, base + (j as int) + 1).last() == cell);
                    assert(line_text(cells.subrange(base, base + (j as int) + 1)) == line_text(
                        cells.subrange(base, base + (j as int)),
                    ) + cell@ + seq![' ']);
                    assert(out@ =~= grid_text(cells, i as int, columns as int) + line_text(
                        cells.subrange(base, base + (j as int) + 1),
                    ));
                }
                j += 1;
            }
            append_char(&mut out, '\n');
            proof {
                let base = (i as int) * (columns as int);
                assert((i as int + 1) * (columns as int) == (i as int) * (columns as int) + (
                columns as int)) by (nonlinear_arith);
                assert(grid_text(cells, i as int + 1, columns as int) == grid_text(
                    cells,
                    i as int,
                    columns as int,
                ) + line_text(cells.subrange(base, base + (columns as int))) + seq!['\n']);
                assert(out@ =~= grid_text(cells, i as int + 1, columns as int));
            }
            i += 1;
        }
        proof {
            assert(cells.len() == self@.rows * self@.columns);
            assert forall|i2: int, j2: int|
                0 <= i2 < self@.rows && 0 <= j2 < self@.columns implies f.ensures(
                (&self@.at(i2, j2),),
                #[trigger] cells[i2 * (self@.columns as int) + j2],
            ) by {
                lemma_row_major_bound(i2, j2, self@.rows as int, self@.columns as int);
                lemma_row_major_inverse(i2, j2, self@.columns as int);
                assert(f.ensures((&self@.data[i2 * (self@.columns as int) + j2],), cells[i2 * (
                self@.columns as int) + j2]));
            }
            assert(out@ == grid_text(cells, self@.rows as int, self@.columns as int));
        }
        out
    }
}

} // verus!
