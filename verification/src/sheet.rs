use vstd::prelude::*;

use crate::cell::Cell;

verus! {

/// The cells of rows of cells.
pub open spec fn row_cells(rows: Seq<Vec<Cell>>) -> Seq<Seq<Cell>> {
    rows.map_values(|r: Vec<Cell>| r@)
}

/// Every row has as many cells as the first.
pub open spec fn rectangular(rows: Seq<Seq<Cell>>) -> bool {
    forall|i: int| 0 <= i < rows.len() ==> #[trigger] rows[i].len() == rows[0].len()
}

/// The used area of a worksheet: rows of cells, all of one width.
#[derive(Debug)]
pub struct Grid {
    width: usize,
    rows: Vec<Vec<Cell>>,
}

impl View for Grid {
    type V = Seq<Seq<Cell>>;

    closed spec fn view(&self) -> Seq<Seq<Cell>> {
        row_cells(self.rows@)
    }
}

impl Grid {
    #[verifier::type_invariant]
    spec fn same_width(self) -> bool {
        &&& forall|i: int| 0 <= i < self.rows@.len() ==> #[trigger] self.rows@[i]@.len() == self.width
        &&& self.rows@.len() == 0 ==> self.width == 0
    }

    /// Takes rows of cells as a grid.  Refused, with the index of the first
    /// row whose width differs from the first row's, where the rows are
    /// not all of one width.
    pub fn from_rows(rows: Vec<Vec<Cell>>) -> (r: Result<Grid, usize>)
        ensures
            match r {
                Ok(g) => rectangular(row_cells(rows@)) && g@ == row_cells(rows@),
                Err(i) => {
                    &&& 0 < i < rows@.len()
                    &&& rows@[i as int]@.len() != rows@[0]@.len()
                    &&& forall|j: int| 0 <= j < i ==> #[trigger] rows@[j]@.len() == rows@[0]@.len()
                },
            },
    {
        let n = rows.len();
        if n == 0 {
            return Ok(Grid { width: 0, rows });
        }
        let width = rows[0].len();
        for i in 0..n
            invariant
                n == rows@.len(),
                n > 0,
                width == rows@[0]@.len(),
                forall|j: int| 0 <= j < i ==> #[trigger] rows@[j]@.len() == width,
        {
            if rows[i].len() != width {
                return Err(i);
            }
        }
        let g = Grid { width, rows };
        assert(rectangular(row_cells(g.rows@))) by {
            assert forall|i: int| 0 <= i < row_cells(g.rows@).len() implies
                #[trigger] row_cells(g.rows@)[i].len() == row_cells(g.rows@)[0].len() by {
                assert(row_cells(g.rows@)[i] == g.rows@[i]@);
            }
        }
        Ok(g)
    }

    /// The rows of the grid.
    pub fn rows(&self) -> (r: &Vec<Vec<Cell>>)
        ensures
            row_cells(r@) == self@,
            rectangular(self@),
    {
        proof {
            use_type_invariant(self);
        }
        assert forall|i: int| 0 <= i < self@.len() implies #[trigger] self@[i].len() == self@[0].len() by {
            assert(self@[i] == self.rows@[i]@);
            assert(self@[0] == self.rows@[0]@);
        }
        &self.rows
    }

    /// The number of cells in each row (zero for a grid without rows).
    pub fn width(&self) -> (w: usize)
        ensures
            forall|i: int| 0 <= i < self@.len() ==> #[trigger] self@[i].len() == w,
            self@.len() == 0 ==> w == 0,
    {
        proof {
            use_type_invariant(self);
        }
        assert forall|i: int| 0 <= i < self@.len() implies #[trigger] self@[i].len() == self.width by {
            assert(self@[i] == self.rows@[i]@);
        }
        self.width
    }
}

} // verus!
