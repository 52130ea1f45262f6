use crate::text::owned;
use crate::types::config::or_default;
use crate::types::{ColumnConfig, Row, SpanningCellConfig, TableConfig, TableError};
use crate::utils::formatting::{table_view, validate_table_data, validate_table_spec};
use vstd::prelude::*;

verus! {

/// Whether `res` is success when `msg` is `None`, and `InvalidConfig` with the message `msg`
/// otherwise.
pub open spec fn config_result(res: Result<(), TableError>, msg: Option<Seq<char>>) -> bool {
    match msg {
        None => res is Ok,
        Some(m) => res matches Err(TableError::InvalidConfig(s)) && s@ == m,
    }
}

/// The complaint about a column's settings, if any.
pub open spec fn column_config_msg(c: ColumnConfig) -> Option<Seq<char>> {
    if c.width > 0 && c.width < c.padding_left + c.padding_right {
        Some("Column width must be greater than padding"@)
    } else if c.truncate > 0 && c.truncate < 3 {
        Some("Truncate width must be at least 3 characters"@)
    } else {
        None
    }
}

/// The complaint about the first column from `k` on that has one.
pub open spec fn columns_msg(cols: Seq<ColumnConfig>, k: int) -> Option<Seq<char>>
    decreases cols.len() - k,
{
    if k < 0 || k >= cols.len() {
        None
    } else {
        match column_config_msg(cols[k]) {
            Some(m) => Some(m),
            None => columns_msg(cols, k + 1),
        }
    }
}

/// The number of columns a spanning cell covers.
pub open spec fn col_span_of(s: SpanningCellConfig) -> nat {
    or_default(s.col_span, 1usize) as nat
}

/// The number of rows a spanning cell covers.
pub open spec fn row_span_of(s: SpanningCellConfig) -> nat {
    or_default(s.row_span, 1usize) as nat
}

/// A spanning cell's end column and end row fit in `usize`.
pub open spec fn span_fits(s: SpanningCellConfig) -> bool {
    s.col + col_span_of(s) <= usize::MAX && s.row + row_span_of(s) <= usize::MAX
}

/// Every spanning cell's ends fit in `usize`.
pub open spec fn spans_fit(cells: Seq<SpanningCellConfig>) -> bool {
    forall|k: int| 0 <= k < cells.len() ==> span_fits(#[trigger] cells[k])
}

/// The complaint about one spanning cell's spans, if any.
pub open spec fn span_config_msg(s: SpanningCellConfig) -> Option<Seq<char>> {
    if col_span_of(s) == 0 {
        Some("Column span must be greater than 0"@)
    } else if row_span_of(s) == 0 {
        Some("Row span must be greater than 0"@)
    } else {
        None
    }
}

/// Whether two spanning cells share a cell.
pub open spec fn spans_overlap(a: SpanningCellConfig, b: SpanningCellConfig) -> bool {
    !(a.col + col_span_of(a) <= b.col || b.col + col_span_of(b) <= a.col || a.row
        + row_span_of(a) <= b.row || b.row + row_span_of(b) <= a.row)
}

/// Whether two of the spanning cells share a cell.
pub open spec fn any_overlap(cells: Seq<SpanningCellConfig>) -> bool {
    exists|i: int, j: int|
        0 <= i < j < cells.len() && spans_overlap(#[trigger] cells[i], #[trigger] cells[j])
}

/// The complaint about the first spanning cell from `k` on that has one.
pub open spec fn spans_msg(cells: Seq<SpanningCellConfig>, k: int) -> Option<Seq<char>>
    decreases cells.len() - k,
{
    if k < 0 || k >= cells.len() {
        None
    } else {
        match span_config_msg(cells[k]) {
            Some(m) => Some(m),
            None => spans_msg(cells, k + 1),
        }
    }
}

/// The complaint about a list of spanning cells: the first cell with a bad span, else an
/// overlap.
pub open spec fn spanning_cells_msg(cells: Seq<SpanningCellConfig>) -> Option<Seq<char>> {
    match spans_msg(cells, 0) {
        Some(m) => Some(m),
        None => if any_overlap(cells) {
            Some("Spanning cells cannot overlap"@)
        } else {
            None
        },
    }
}

/// The complaint about a table's settings: its columns first, then the column default, then
/// the spanning cells.
pub open spec fn config_msg(config: TableConfig) -> Option<Seq<char>> {
    match columns_msg(config.columns@, 0) {
        Some(m) => Some(m),
        None => match column_config_msg(config.column_default) {
            Some(m) => Some(m),
            None => spanning_cells_msg(config.spanning_cells@),
        },
    }
}

/// Column settings whose padding sum, when the width is given, fits in `usize`.
pub open spec fn column_sums_fit(c: ColumnConfig) -> bool {
    c.width > 0 ==> c.padding_left + c.padding_right <= usize::MAX
}

/// The sums that validating a table's settings computes fit in `usize`.
pub open spec fn config_sums_fit(config: TableConfig) -> bool {
    &&& forall|k: int|
        0 <= k < config.columns@.len() ==> column_sums_fit(#[trigger] config.columns@[k])
    &&& column_sums_fit(config.column_default)
    &&& spans_fit(config.spanning_cells@)
}

/// Checks a table's settings (see `config_msg`).
pub fn validate_config(config: &TableConfig) -> (res: Result<(), TableError>)
    requires
        config_sums_fit(*config),
    ensures
        config_result(res, config_msg(*config)),
{
    let r = validate_column_configs(&config.columns);
    if r.is_err() {
        return r;
    }
    let r = validate_column_config(&config.column_default);
    if r.is_err() {
        return r;
    }
    validate_spanning_cell_configs(&config.spanning_cells)
}

/// Checks each column's settings in order; the first complaint wins.
pub fn validate_column_configs(columns: &[ColumnConfig]) -> (res: Result<(), TableError>)
    requires
        forall|k: int| 0 <= k < columns@.len() ==> column_sums_fit(#[trigger] columns@[k]),
    ensures
        config_result(res, columns_msg(columns@, 0)),
{
    let mut i: usize = 0;
    while i < columns.len()
        invariant
            i <= columns.len(),
            forall|k: int| 0 <= k < columns@.len() ==> column_sums_fit(#[trigger] columns@[k]),
            columns_msg(columns@, i as int) == columns_msg(columns@, 0),
        decreases columns.len() - i,
    {
        let r = validate_column_config(&columns[i]);
        if r.is_err() {
            return r;
        }
        i = i + 1;
    }
    Ok(())
}

/// Checks one column's settings: a given width must hold the padding, and a truncation
/// width must be at least 3.
pub fn validate_column_config(config: &ColumnConfig) -> (res: Result<(), TableError>)
    requires
        column_sums_fit(*config),
    ensures
        config_result(res, column_config_msg(*config)),
{
    if config.width > 0 && config.width < config.padding_left + config.padding_right {
        return Err(TableError::InvalidConfig(owned("Column width must be greater than padding")));
    }
    if config.truncate > 0 && config.truncate < 3 {
        return Err(
            TableError::InvalidConfig(owned("Truncate width must be at least 3 characters")),
        );
    }
    Ok(())
}

/// Checks each spanning cell's spans, then that no two of them overlap.
pub fn validate_spanning_cell_configs(spanning_cells: &[SpanningCellConfig]) -> (res: Result<
    (),
    TableError,
>)
    requires
        spans_fit(spanning_cells@),
    ensures
        config_result(res, spanning_cells_msg(spanning_cells@)),
{
    let mut i: usize = 0;
    while i < spanning_cells.len()
        invariant
            i <= spanning_cells.len(),
            spans_msg(spanning_cells@, i as int) == spans_msg(spanning_cells@, 0),
        decreases spanning_cells.len() - i,
    {
        let r = validate_spanning_cell_config(&spanning_cells[i]);
        if r.is_err() {
            return r;
        }
        i = i + 1;
    }
    check_spanning_cell_overlaps(spanning_cells)
}

/// Checks that a spanning cell covers at least one column and one row.
pub fn validate_spanning_cell_config(config: &SpanningCellConfig) -> (res: Result<
    (),
    TableError,
>)
    ensures
        config_result(res, span_config_msg(*config)),
{
    if crate::types::config::unwrap_or(config.col_span, 1) == 0 {
        return Err(TableError::InvalidConfig(owned("Column span must be greater than 0")));
    }
    if crate::types::config::unwrap_or(config.row_span, 1) == 0 {
        return Err(TableError::InvalidConfig(owned("Row span must be greater than 0")));
    }
    Ok(())
}

/// Refuses two spanning cells that share a cell.
pub fn check_spanning_cell_overlaps(spanning_cells: &[SpanningCellConfig]) -> (res: Result<
    (),
    TableError,
>)
    requires
        spans_fit(spanning_cells@),
    ensures
        config_result(
            res,
            if any_overlap(spanning_cells@) {
                Some("Spanning cells cannot overlap"@)
            } else {
                None
            },
        ),
{
    let n = spanning_cells.len();
    let mut i: usize = 0;
    while i < n
        invariant
            i <= n == spanning_cells@.len(),
            spans_fit(spanning_cells@),
            forall|a: int, b: int|
                0 <= a < i && a < b < n ==> !spans_overlap(
                    #[trigger] spanning_cells@[a],
                    #[trigger] spanning_cells@[b],
                ),
        decreases n - i,
    {
        let mut j: usize = i + 1;
        while j < n
            invariant
                i < n == spanning_cells@.len(),
                i + 1 <= j <= n,
                spans_fit(spanning_cells@),
                forall|a: int, b: int|
                    0 <= a < i && a < b < n ==> !spans_overlap(
                        #[trigger] spanning_cells@[a],
                        #[trigger] spanning_cells@[b],
                    ),
                forall|b: int| i < b < j ==> !spans_overlap(spanning_cells@[i as int], #[trigger] spanning_cells@[b]),
            decreases n - j,
        {
            if spanning_cells_overlap(&spanning_cells[i], &spanning_cells[j]) {
                return Err(TableError::InvalidConfig(owned("Spanning cells cannot overlap")));
            }
            j = j + 1;
        }
        i = i + 1;
    }
    Ok(())
}

/// Whether two spanning cells share a cell.
pub fn spanning_cells_overlap(cell1: &SpanningCellConfig, cell2: &SpanningCellConfig) -> (res: bool)
    requires
        span_fits(*cell1),
        span_fits(*cell2),
    ensures
        res == spans_overlap(*cell1, *cell2),
{
    let cell1_end_col = cell1.col + crate::types::config::unwrap_or(cell1.col_span, 1);
    let cell1_end_row = cell1.row + crate::types::config::unwrap_or(cell1.row_span, 1);
    let cell2_end_col = cell2.col + crate::types::config::unwrap_or(cell2.col_span, 1);
    let cell2_end_row = cell2.row + crate::types::config::unwrap_or(cell2.row_span, 1);
    !(cell1_end_col <= cell2.col || cell2_end_col <= cell1.col || cell1_end_row <= cell2.row
        || cell2_end_row <= cell1.row)
}

/// The complaint about one spanning cell placed in a table of `cols` columns and `rows`
/// rows, if any.
pub open spec fn span_place_msg(s: SpanningCellConfig, cols: nat, rows: nat) -> Option<Seq<char>> {
    if s.col >= cols {
        Some("Spanning cell column index out of bounds"@)
    } else if s.row >= rows {
        Some("Spanning cell row index out of bounds"@)
    } else if s.col + col_span_of(s) > cols {
        Some("Spanning cell extends beyond table columns"@)
    } else if s.row + row_span_of(s) > rows {
        Some("Spanning cell extends beyond table rows"@)
    } else {
        None
    }
}

/// The complaint about the first spanning cell from `k` on that does not fit the table.
pub open spec fn span_places_msg(cells: Seq<SpanningCellConfig>, k: int, cols: nat, rows: nat) -> Option<
    Seq<char>,
>
    decreases cells.len() - k,
{
    if k < 0 || k >= cells.len() {
        None
    } else {
        match span_place_msg(cells[k], cols, rows) {
            Some(m) => Some(m),
            None => span_places_msg(cells, k + 1, cols, rows),
        }
    }
}

/// Checks the rows (see `validate_table_data`), then that each spanning cell lies inside the
/// table.
pub fn validate_table_data_with_config(rows: &[Row], config: &TableConfig) -> (res: Result<
    (),
    TableError,
>)
    requires
        spans_fit(config.spanning_cells@),
    ensures
        validate_table_spec(table_view(rows@)) is Err ==> res == validate_table_spec(
            table_view(rows@),
        ),
        validate_table_spec(table_view(rows@)) is Ok ==> config_result(
            res,
            if rows@.len() == 0 {
                None
            } else {
                span_places_msg(
                    config.spanning_cells@,
                    0,
                    rows@[0]@.len(),
                    rows@.len(),
                )
            },
        ),
{
    let r = validate_table_data(rows);
    if r.is_err() {
        return r;
    }
    if rows.len() == 0 {
        return Ok(());
    }
    let column_count = rows[0].len();
    let cells = &config.spanning_cells;
    let mut i: usize = 0;
    while i < cells.len()
        invariant
            i <= cells.len(),
            cells == &config.spanning_cells,
            spans_fit(cells@),
            validate_table_spec(table_view(rows@)) is Ok,
            rows@.len() > 0,
            column_count == rows@[0]@.len(),
            span_places_msg(cells@, i as int, column_count as nat, rows@.len())
                == span_places_msg(cells@, 0, column_count as nat, rows@.len()),
        decreases cells.len() - i,
    {
        let s = &cells[i];
        assert(span_fits(cells@[i as int]));
        if s.col >= column_count {
            return Err(
                TableError::InvalidConfig(owned("Spanning cell column index out of bounds")),
            );
        }
        if s.row >= rows.len() {
            return Err(TableError::InvalidConfig(owned("Spanning cell row index out of bounds")));
        }
        let end_col = s.col + crate::types::config::unwrap_or(s.col_span, 1);
        let end_row = s.row + crate::types::config::unwrap_or(s.row_span, 1);
        if end_col > column_count {
            return Err(
                TableError::InvalidConfig(owned("Spanning cell extends beyond table columns")),
            );
        }
        if end_row > rows.len() {
            return Err(TableError::InvalidConfig(owned("Spanning cell extends beyond table rows")));
        }
        i = i + 1;
    }
    Ok(())
}


/// Whether the cell at row `r`, column `c` lies in a spanning cell's rectangle: columns
/// `col .. col + col_span`, rows `row .. row + row_span`.
pub open spec fn span_covers(s: SpanningCellConfig, r: int, c: int) -> bool {
    &&& s.col <= c < s.col + col_span_of(s)
    &&& s.row <= r < s.row + row_span_of(s)
}

/// Two spanning cells (each at least one column and one row) overlap exactly when some cell
/// of the table lies in both; so cells side by side, whose columns only touch, never do.
pub proof fn law_overlap_shares_a_cell(a: SpanningCellConfig, b: SpanningCellConfig)
    requires
        col_span_of(a) > 0,
        row_span_of(a) > 0,
        col_span_of(b) > 0,
        row_span_of(b) > 0,
    ensures
        spans_overlap(a, b) <==> exists|r: int, c: int| span_covers(a, r, c) && span_covers(b, r, c),
        a.col + col_span_of(a) == b.col ==> !spans_overlap(a, b),
{
    if spans_overlap(a, b) {
        let r: int = if a.row >= b.row { a.row as int } else { b.row as int };
        let c: int = if a.col >= b.col { a.col as int } else { b.col as int };
        assert(span_covers(a, r, c) && span_covers(b, r, c));
    }
}
} // verus!
