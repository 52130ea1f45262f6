use crate::table_data::{column_count_of, TableData};
use crate::text::owned;
use crate::utils::formatting::table_view;
use vstd::prelude::*;

verus! {

/// How many rows and columns a cell covers; both at least 1.
#[derive(Debug, Clone, Copy, PartialEq, Eq, Structural)]
pub struct CellSpan {
    pub row_span: usize,
    pub col_span: usize,
}

impl CellSpan {
    /// A span of the given size, each side at least 1.
    pub fn new(row_span: usize, col_span: usize) -> (res: Self)
        ensures
            res.row_span == if row_span == 0 { 1 } else { row_span },
            res.col_span == if col_span == 0 { 1 } else { col_span },
    {
        CellSpan {
            row_span: if row_span == 0 { 1 } else { row_span },
            col_span: if col_span == 0 { 1 } else { col_span },
        }
    }

    /// One row by one column.
    pub fn single() -> (res: Self)
        ensures
            res == (CellSpan { row_span: 1, col_span: 1 }),
    {
        Self::new(1, 1)
    }

    /// One row by `col_span` columns (at least 1).
    pub fn horizontal(col_span: usize) -> (res: Self)
        ensures
            res == (CellSpan { row_span: 1, col_span: if col_span == 0 { 1 } else { col_span } }),
    {
        Self::new(1, col_span)
    }

    /// `row_span` rows (at least 1) by one column.
    pub fn vertical(row_span: usize) -> (res: Self)
        ensures
            res == (CellSpan { row_span: if row_span == 0 { 1 } else { row_span }, col_span: 1 }),
    {
        Self::new(row_span, 1)
    }

    /// Whether the span covers more than one cell.
    pub fn is_spanning(&self) -> (res: bool)
        ensures
            res == (self.row_span > 1 || self.col_span > 1),
    {
        self.row_span > 1 || self.col_span > 1
    }
}

impl Default for CellSpan {
    fn default() -> (res: Self)
        ensures
            res == (CellSpan { row_span: 1, col_span: 1 }),
    {
        Self::single()
    }
}

/// One cell of a table with spans: its text, its span, and whether it is covered by the
/// span of another cell.
#[derive(Debug)]
pub struct SpannedCell {
    pub content: String,
    pub span: CellSpan,
    pub is_continuation: bool,
}

/// A cell as plain values: its text, its span and whether it is covered.
pub open spec fn cell_view(c: SpannedCell) -> (Seq<char>, CellSpan, bool) {
    (c.content@, c.span, c.is_continuation)
}

/// The plain cell of a text: one by one, not covered.
pub open spec fn plain_cell(content: Seq<char>) -> (Seq<char>, CellSpan, bool) {
    (content, CellSpan { row_span: 1, col_span: 1 }, false)
}

/// A covered cell: empty, one by one.
pub open spec fn covered_cell() -> (Seq<char>, CellSpan, bool) {
    (Seq::empty(), CellSpan { row_span: 1, col_span: 1 }, true)
}

impl SpannedCell {
    /// A one-by-one cell holding `content`.
    pub fn new(content: String) -> (res: Self)
        ensures
            cell_view(res) == plain_cell(content@),
    {
        SpannedCell { content, span: CellSpan::single(), is_continuation: false }
    }

    /// A cell holding `content` with the given span.
    pub fn with_span(content: String, span: CellSpan) -> (res: Self)
        ensures
            cell_view(res) == (content@, span, false),
    {
        SpannedCell { content, span, is_continuation: false }
    }

    /// A cell covered by another cell's span.
    pub fn continuation() -> (res: Self)
        ensures
            cell_view(res) == covered_cell(),
    {
        SpannedCell { content: String::new(), span: CellSpan::single(), is_continuation: true }
    }

    /// A copy of the cell.
    pub fn duplicate(&self) -> (res: Self)
        ensures
            cell_view(res) == cell_view(*self),
    {
        SpannedCell { content: owned(self.content.as_str()), span: self.span, is_continuation: self.is_continuation }
    }
}

/// A grid of cells with spans.
#[derive(Debug)]
pub struct SpannedTableData {
    pub cells: Vec<Vec<SpannedCell>>,
    pub rows: usize,
    pub cols: usize,
}

/// The cells of a grid as plain values.
pub open spec fn grid_view(cells: Seq<Vec<SpannedCell>>) -> Seq<Seq<(Seq<char>, CellSpan, bool)>> {
    cells.map_values(|row: Vec<SpannedCell>| row@.map_values(|c: SpannedCell| cell_view(c)))
}

impl SpannedTableData {
    /// Whether the grid has `rows` rows of `cols` cells each.
    pub open spec fn wf(&self) -> bool {
        &&& self.cells@.len() == self.rows
        &&& forall|r: int| 0 <= r < self.rows ==> (#[trigger] self.cells@[r])@.len() == self.cols
    }

    /// The cells as plain values.
    pub open spec fn grid(&self) -> Seq<Seq<(Seq<char>, CellSpan, bool)>> {
        grid_view(self.cells@)
    }

    /// A grid of empty one-by-one cells.
    pub fn new(rows: usize, cols: usize) -> (res: Self)
        ensures
            res.wf(),
            res.rows == rows,
            res.cols == cols,
            forall|r: int, c: int| 0 <= r < rows && 0 <= c < cols ==> #[trigger] res.grid()[r][c] == plain_cell(Seq::empty()),
    {
        let mut cells: Vec<Vec<SpannedCell>> = Vec::new();
        let mut r: usize = 0;
        while r < rows
            invariant
                r <= rows,
                cells@.len() == r,
                forall|i: int| 0 <= i < r ==> (#[trigger] cells@[i])@.len() == cols,
                forall|i: int, c: int| 0 <= i < r && 0 <= c < cols ==> #[trigger] cell_view(cells@[i]@[c]) == plain_cell(Seq::empty()),
            decreases rows - r,
        {
            let mut row: Vec<SpannedCell> = Vec::new();
            let mut c: usize = 0;
            while c < cols
                invariant
                    c <= cols,
                    row@.len() == c,
                    forall|k: int| 0 <= k < c ==> #[trigger] cell_view(row@[k]) == plain_cell(Seq::empty()),
                decreases cols - c,
            {
                row.push(SpannedCell::new(String::new()));
                c = c + 1;
            }
            cells.push(row);
            r = r + 1;
        }
        SpannedTableData { cells, rows, cols }
    }

    /// The grid of a plain table: its rows, the length of its first row as the number of
    /// columns, each cell as a one-by-one cell (cells beyond that length left out, missing
    /// ones empty).
    pub fn from_regular_table(data: &TableData) -> (res: Self)
        ensures
            res.wf(),
            res.rows == data.rows@.len(),
            res.cols == column_count_of(table_view(data.rows@)),
            forall|r: int, c: int| 0 <= r < res.rows && 0 <= c < res.cols ==> #[trigger] res.grid()[r][c] == plain_cell(
                if c < table_view(data.rows@)[r].len() { table_view(data.rows@)[r][c] } else { Seq::empty() },
            ),
    {
        let rows = data.row_count();
        let cols = data.column_count();
        let ghost t = table_view(data.rows@);
        let mut cells: Vec<Vec<SpannedCell>> = Vec::new();
        let mut r: usize = 0;
        while r < rows
            invariant
                r <= rows,
                rows == data.rows@.len(),
                cols == column_count_of(t),
                t == table_view(data.rows@),
                cells@.len() == r,
                forall|i: int| 0 <= i < r ==> (#[trigger] cells@[i])@.len() == cols,
                forall|i: int, c: int| 0 <= i < r && 0 <= c < cols ==> #[trigger] cell_view(cells@[i]@[c]) == plain_cell(
                    if c < t[i].len() { t[i][c] } else { Seq::empty() },
                ),
            decreases rows - r,
        {
            let mut row: Vec<SpannedCell> = Vec::new();
            let mut c: usize = 0;
            while c < cols
                invariant
                    c <= cols,
                    r < rows,
                    rows == data.rows@.len(),
                    t == table_view(data.rows@),
                    row@.len() == c,
                    forall|k: int| 0 <= k < c ==> #[trigger] cell_view(row@[k]) == plain_cell(
                        if k < t[r as int].len() { t[r as int][k] } else { Seq::empty() },
                    ),
                decreases cols - c,
            {
                let content = if c < data.rows[r].len() {
                    owned(data.rows[r][c].as_str())
                } else {
                    String::new()
                };
                row.push(SpannedCell::new(content));
                c = c + 1;
            }
            cells.push(row);
            r = r + 1;
        }
        SpannedTableData { cells, rows, cols }
    }

    /// Places `cell` at (`row`, `col`) and marks the other cells its span covers as
    /// covered; an error when the place or the span falls outside the grid.
    pub fn set_cell(&mut self, row: usize, col: usize, cell: SpannedCell) -> (res: Result<(), String>)
        requires
            old(self).wf(),
            row + cell.span.row_span <= usize::MAX,
            col + cell.span.col_span <= usize::MAX,
        ensures
            final(self).wf(),
            final(self).rows == old(self).rows,
            final(self).cols == old(self).cols,
            (row >= old(self).rows || col >= old(self).cols) ==> (res matches Err(m) && m@ == "Cell position ("@
                + crate::text::decimal(row as nat) + ", "@ + crate::text::decimal(col as nat) + ") is out of bounds"@
                && final(self).grid() == old(self).grid()),
            (row < old(self).rows && col < old(self).cols && (row + cell.span.row_span > old(self).rows || col
                + cell.span.col_span > old(self).cols)) ==> (res matches Err(m) && m@ == "Cell span exceeds table bounds"@
                && final(self).grid() == old(self).grid()),
            (row < old(self).rows && col < old(self).cols && row + cell.span.row_span <= old(self).rows && col
                + cell.span.col_span <= old(self).cols) ==> (res is Ok
                && forall|r: int, c: int| 0 <= r < old(self).rows && 0 <= c < old(self).cols ==> #[trigger] final(self).grid()[r][c] == if r == row && c == col {
                    cell_view(cell)
                } else if row <= r < row + cell.span.row_span && col <= c < col + cell.span.col_span {
                    covered_cell()
                } else {
                    old(self).grid()[r][c]
                }),
    {
        if row >= self.rows || col >= self.cols {
            let a = crate::text::concat3("Cell position (", crate::text::usize_to_string(row).as_str(), ", ");
            let b = crate::text::concat3(a.as_str(), crate::text::usize_to_string(col).as_str(), ") is out of bounds");
            return Err(b);
        }
        if row + cell.span.row_span > self.rows || col + cell.span.col_span > self.cols {
            return Err(owned("Cell span exceeds table bounds"));
        }
        let ghost g0 = self.grid();
        let spanning = cell.span.is_spanning();
        let rs = cell.span.row_span;
        let cs = cell.span.col_span;
        let ghost cv = cell_view(cell);
        self.put(row, col, cell);
        if spanning {
            let mut r: usize = row;
            while r < row + rs
                invariant
                    self.wf(),
                    self.rows == old(self).rows,
                    self.cols == old(self).cols,
                    row <= r <= row + rs <= self.rows,
                    col + cs <= self.cols,
                    col < self.cols,
                    forall|i: int, c: int| 0 <= i < self.rows && 0 <= c < self.cols ==> #[trigger] self.grid()[i][c] == if i == row && c == col {
                        cv
                    } else if row <= i < r && col <= c < col + cs {
                        covered_cell()
                    } else {
                        g0[i][c]
                    },
                decreases row + rs - r,
            {
                let mut c: usize = col;
                while c < col + cs
                    invariant
                        self.wf(),
                        self.rows == old(self).rows,
                        self.cols == old(self).cols,
                        row <= r < row + rs <= self.rows,
                        col <= c <= col + cs <= self.cols,
                        forall|i: int, k: int| 0 <= i < self.rows && 0 <= k < self.cols ==> #[trigger] self.grid()[i][k] == if i == row && k == col {
                            cv
                        } else if (row <= i < r && col <= k < col + cs) || (i == r && col <= k < c) {
                            covered_cell()
                        } else {
                            g0[i][k]
                        },
                    decreases col + cs - c,
                {
                    if r != row || c != col {
                        self.put(r, c, SpannedCell::continuation());
                    }
                    c = c + 1;
                }
                r = r + 1;
            }
        }
        Ok(())
    }

    /// Replaces the cell at (`row`, `col`).
    fn put(&mut self, row: usize, col: usize, cell: SpannedCell)
        requires
            old(self).wf(),
            row < old(self).rows,
            col < old(self).cols,
        ensures
            final(self).wf(),
            final(self).rows == old(self).rows,
            final(self).cols == old(self).cols,
            forall|r: int, c: int| 0 <= r < old(self).rows && 0 <= c < old(self).cols ==> #[trigger] final(self).grid()[r][c] == if r == row && c == col {
                cell_view(cell)
            } else {
                old(self).grid()[r][c]
            },
    {
        let mut line: Vec<SpannedCell> = Vec::new();
        std::mem::swap(&mut line, &mut self.cells[row]);
        line.set(col, cell);
        self.cells.set(row, line);
    }

    /// The cell at (`row`, `col`), if the place is inside the grid.
    pub fn get_cell(&self, row: usize, col: usize) -> (res: Option<&SpannedCell>)
        requires
            self.wf(),
        ensures
            row < self.rows && col < self.cols ==> (res matches Some(c) && cell_view(*c) == self.grid()[row as int][col as int]),
            !(row < self.rows && col < self.cols) ==> res is None,
    {
        if row < self.rows && col < self.cols {
            Some(&self.cells[row][col])
        } else {
            None
        }
    }

    /// Whether the grid has no rows or no columns.
    pub fn is_empty(&self) -> (res: bool)
        ensures
            res == (self.rows == 0 || self.cols == 0),
    {
        self.rows == 0 || self.cols == 0
    }
}

/// The sum of `w[start..end]`.
pub open spec fn width_sum(w: Seq<usize>, start: int, end: int) -> int
    decreases end - start,
{
    if end <= start {
        0
    } else {
        width_sum(w, start, end - 1) + w[end - 1]
    }
}

/// The width of a cell spanning `col_span` columns from `start_col`: the widths of the
/// columns it covers (up to the last column) and one border of `border_width` between each
/// two of its columns.
pub open spec fn spanned_width_spec(w: Seq<usize>, start_col: nat, col_span: nat, border_width: nat) -> int {
    let end: int = if start_col + col_span < w.len() { (start_col + col_span) as int } else { w.len() as int };
    width_sum(w, start_col as int, end) + (if col_span > 1 { col_span - 1 } else { 0 }) * border_width
}

/// The width of a cell spanning columns (see `spanned_width_spec`).
pub fn calculate_spanned_width(column_widths: &[usize], start_col: usize, col_span: usize, border_width: usize) -> (res: usize)
    requires
        start_col <= column_widths@.len(),
        start_col + col_span <= usize::MAX,
        spanned_width_spec(column_widths@, start_col as nat, col_span as nat, border_width as nat) <= usize::MAX,
    ensures
        res == spanned_width_spec(column_widths@, start_col as nat, col_span as nat, border_width as nat),
{
    let end_col = if start_col + col_span < column_widths.len() { start_col + col_span } else { column_widths.len() };
    let internal: usize = if col_span > 1 { col_span - 1 } else { 0 };
    proof {
        lemma_width_sum_mono(column_widths@, start_col as int, end_col as int);
        assert(0 <= internal * border_width) by (nonlinear_arith)
            requires internal >= 0, border_width >= 0;
    }
    let mut total: usize = 0;
    let mut i: usize = start_col;
    while i < end_col
        invariant
            start_col <= i <= end_col <= column_widths@.len(),
            total == width_sum(column_widths@, start_col as int, i as int),
            width_sum(column_widths@, start_col as int, end_col as int) <= usize::MAX,
            forall|j: int| start_col <= j <= end_col ==> width_sum(column_widths@, start_col as int, j) <= width_sum(
                column_widths@,
                start_col as int,
                end_col as int,
            ),
        decreases end_col - i,
    {
        assert(width_sum(column_widths@, start_col as int, i + 1) <= usize::MAX);
        total = total + column_widths[i];
        i = i + 1;
    }
    total + internal * border_width
}

/// Sums of more columns are no smaller.
proof fn lemma_width_sum_mono(w: Seq<usize>, start: int, end: int)
    ensures
        forall|j: int| start <= j <= end ==> width_sum(w, start, j) <= width_sum(w, start, end),
    decreases end - start,
{
    if end > start {
        lemma_width_sum_mono(w, start, end - 1);
    }
}

/// Whether a cell is drawn: it is not covered by another cell's span.
pub fn should_render_cell(cell: &SpannedCell) -> (res: bool)
    ensures
        res == !cell.is_continuation,
{
    !cell.is_continuation
}

} // verus!
