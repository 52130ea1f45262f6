use crate::types::config::{default_column, or_default, unwrap_or};
use crate::types::{
    CellConfig, CellCoordinates, ColumnConfig, RangeConfig, RangeCoordinate, Row, SpanningCellConfig,
};
use crate::text::{owned, views};
use crate::utils::formatting::table_view;
use vstd::prelude::*;

verus! {

/// Whether the columns and rows of a spanning cell's corner fit: its start plus its span is
/// at least 1 and fits in `usize`.
pub open spec fn corner_fits(s: SpanningCellConfig) -> bool {
    &&& 1 <= s.col + or_default(s.col_span, 1usize) <= usize::MAX
    &&& 1 <= s.row + or_default(s.row_span, 1usize) <= usize::MAX
}

/// The rectangle a spanning cell covers: from its place to its place plus its span less one
/// (a missing span counts as 1).
pub open spec fn range_of(s: SpanningCellConfig) -> RangeCoordinate {
    RangeCoordinate {
        top_left: CellCoordinates { col: s.col, row: s.row },
        bottom_right: CellCoordinates {
            col: (s.col + or_default(s.col_span, 1usize) - 1) as usize,
            row: (s.row + or_default(s.row_span, 1usize) - 1) as usize,
        },
    }
}

/// The layout of a spanning cell's content: its own settings over those of the column it
/// starts in (or the default column settings).
pub open spec fn span_cell_config(s: SpanningCellConfig, columns: Seq<ColumnConfig>) -> CellConfig {
    let d = if s.col < columns.len() { columns[s.col as int] } else { default_column() };
    CellConfig {
        alignment: or_default(s.alignment, d.alignment),
        vertical_alignment: or_default(s.vertical_alignment, d.vertical_alignment),
        padding_left: or_default(s.padding_left, d.padding_left),
        padding_right: or_default(s.padding_right, d.padding_right),
        truncate: or_default(s.truncate, d.truncate),
        wrap_word: or_default(s.wrap_word, d.wrap_word),
    }
}

/// The range of a spanning cell with its layout.
pub open spec fn range_config_of(s: SpanningCellConfig, columns: Seq<ColumnConfig>) -> RangeConfig {
    RangeConfig {
        top_left: range_of(s).top_left,
        bottom_right: range_of(s).bottom_right,
        config: span_cell_config(s, columns),
    }
}

/// Whether a cell lies in a rectangle, corners included.
pub open spec fn in_rect(cell: CellCoordinates, tl: CellCoordinates, br: CellCoordinates) -> bool {
    tl.col <= cell.col <= br.col && tl.row <= cell.row <= br.row
}

/// The first of the ranges `i..` that holds the cell.
pub open spec fn first_containing(ranges: Seq<RangeConfig>, cell: CellCoordinates, i: int) -> Option<nat>
    decreases ranges.len() - i,
{
    if i < 0 || i >= ranges.len() {
        None
    } else if in_rect(cell, ranges[i].top_left, ranges[i].bottom_right) {
        Some(i as nat)
    } else {
        first_containing(ranges, cell, i + 1)
    }
}

/// The ranges of spanning cells, for looking up which range a cell belongs to.
#[derive(Debug, Clone)]
pub struct SpanningCellManager {
    ranges: Vec<RangeConfig>,
}

impl SpanningCellManager {
    /// The ranges, in the order of the spanning cells.
    pub closed spec fn ranges_view(&self) -> Seq<RangeConfig> {
        self.ranges@
    }

    /// The range that holds the cell, the first if several do.
    pub open spec fn containing(&self, cell: CellCoordinates) -> Option<RangeConfig> {
        match first_containing(self.ranges_view(), cell, 0) {
            Some(i) => Some(self.ranges_view()[i as int]),
            None => None,
        }
    }

    /// Whether every range's far corner is below `usize::MAX` in both directions.
    pub open spec fn wf(&self) -> bool {
        forall|i: int| 0 <= i < self.ranges_view().len() ==> (#[trigger] self.ranges_view()[i]).bottom_right.col
            < usize::MAX && self.ranges_view()[i].bottom_right.row < usize::MAX
    }

    /// The ranges of the spanning cells with their layouts, in order.
    pub fn new(configs: &[SpanningCellConfig], columns: &[ColumnConfig]) -> (res: Self)
        requires
            forall|k: int| 0 <= k < configs@.len() ==> corner_fits(#[trigger] configs@[k]),
        ensures
            res.ranges_view() == configs@.map_values(|s: SpanningCellConfig| range_config_of(s, columns@)),
            res.wf(),
    {
        let mut ranges: Vec<RangeConfig> = Vec::new();
        let mut i: usize = 0;
        while i < configs.len()
            invariant
                i <= configs@.len(),
                forall|k: int| 0 <= k < configs@.len() ==> corner_fits(#[trigger] configs@[k]),
                ranges@ == configs@.take(i as int).map_values(|s: SpanningCellConfig| range_config_of(s, columns@)),
            decreases configs.len() - i,
        {
            let r = create_range_config(&configs[i], columns);
            ranges.push(r);
            i = i + 1;
            assert(ranges@ =~= configs@.take(i as int).map_values(|s: SpanningCellConfig| range_config_of(s, columns@)));
        }
        assert(configs@.take(i as int) =~= configs@);
        SpanningCellManager { ranges }
    }

    /// The first range that holds the cell, if any.
    pub fn get_containing_range(&self, cell: &CellCoordinates) -> (res: Option<&RangeConfig>)
        ensures
            match self.containing(*cell) {
                Some(r) => res matches Some(x) && *x == r,
                None => res is None,
            },
    {
        let mut i: usize = 0;
        while i < self.ranges.len()
            invariant
                i <= self.ranges@.len(),
                first_containing(self.ranges@, *cell, 0) == first_containing(self.ranges@, *cell, i as int),
            decreases self.ranges.len() - i,
        {
            let r = &self.ranges[i];
            if cell.col >= r.top_left.col && cell.col <= r.bottom_right.col && cell.row >= r.top_left.row
                && cell.row <= r.bottom_right.row {
                return Some(r);
            }
            i = i + 1;
        }
        None
    }

    /// Whether two cells lie in the same range: both in a range, the two ranges with the same
    /// corners.
    pub fn in_same_range(&self, cell1: &CellCoordinates, cell2: &CellCoordinates) -> (res: bool)
        ensures
            res == (match (self.containing(*cell1), self.containing(*cell2)) {
                (Some(a), Some(b)) => a.top_left == b.top_left && a.bottom_right == b.bottom_right,
                _ => false,
            }),
    {
        match (self.get_containing_range(cell1), self.get_containing_range(cell2)) {
            (Some(a), Some(b)) => a.top_left.col == b.top_left.col && a.top_left.row == b.top_left.row
                && a.bottom_right.col == b.bottom_right.col && a.bottom_right.row == b.bottom_right.row,
            _ => false,
        }
    }

    /// The ranges.
    pub fn get_range_config_table(&self) -> (res: &[RangeConfig])
        ensures
            res@ == self.ranges_view(),
    {
        self.ranges.as_slice()
    }

    /// The corner of the range that holds the cell, if any.
    pub open spec fn origin_of(&self, cell: CellCoordinates) -> Option<CellCoordinates> {
        match self.containing(cell) {
            Some(r) => Some(r.top_left),
            None => None::<CellCoordinates>,
        }
    }

    /// Whether the cell's content is drawn: it lies in no range, or it is its range's corner.
    pub open spec fn rendered(&self, cell: CellCoordinates) -> bool {
        match self.containing(cell) {
            Some(r) => cell.col == r.top_left.col && cell.row == r.top_left.row,
            None => true,
        }
    }

    /// How the cell is spanned: by the range that holds it (its size and corner), or by
    /// itself alone.
    pub open spec fn span_info(&self, cell: CellCoordinates) -> SpanInfo {
        match self.containing(cell) {
            Some(r) => SpanInfo {
                is_spanning: true,
                is_origin: cell.col == r.top_left.col && cell.row == r.top_left.row,
                col_span: (r.bottom_right.col - r.top_left.col + 1) as usize,
                row_span: (r.bottom_right.row - r.top_left.row + 1) as usize,
                origin: r.top_left,
            },
            None => SpanInfo { is_spanning: false, is_origin: true, col_span: 1, row_span: 1, origin: cell },
        }
    }

    /// A cell's span details agree with the other queries: it spans exactly when some range
    /// holds it (`is_cell_in_span`), it is an origin exactly when it is drawn
    /// (`should_render_cell`), its origin is `get_span_origin`'s or the cell itself, and a
    /// cell in no range spans one column and one row.
    pub proof fn law_span_info(&self, cell: CellCoordinates)
        ensures
            self.span_info(cell).is_spanning == self.containing(cell) is Some,
            self.span_info(cell).is_origin == self.rendered(cell),
            self.span_info(cell).origin == (match self.origin_of(cell) {
                Some(o) => o,
                None => cell,
            }),
            !self.span_info(cell).is_spanning ==> self.span_info(cell).col_span == 1 && self.span_info(
                cell,
            ).row_span == 1,
    {
    }

    /// Whether the cell lies in some range.
    pub fn is_cell_in_span(&self, cell: &CellCoordinates) -> (res: bool)
        ensures
            res == self.containing(*cell) is Some,
    {
        self.get_containing_range(cell).is_some()
    }

    /// The corner of the range that holds the cell, if any.
    pub fn get_span_origin(&self, cell: &CellCoordinates) -> (res: Option<CellCoordinates>)
        ensures
            res == self.origin_of(*cell),
    {
        match self.get_containing_range(cell) {
            Some(r) => Some(r.top_left),
            None => None,
        }
    }

    /// Whether the cell's content is drawn: it lies in no range, or it is its range's corner.
    pub fn should_render_cell(&self, cell: &CellCoordinates) -> (res: bool)
        ensures
            res == self.rendered(*cell),
    {
        match self.get_containing_range(cell) {
            Some(r) => cell.col == r.top_left.col && cell.row == r.top_left.row,
            None => true,
        }
    }

    /// How the cell is spanned: by the range that holds it (its size and corner), or by
    /// itself alone.
    pub fn get_cell_span_info(&self, cell: &CellCoordinates) -> (res: SpanInfo)
        requires
            self.wf(),
        ensures
            res == self.span_info(*cell),
    {
        proof {
            lemma_first_containing(self.ranges@, *cell, 0);
        }
        match self.get_containing_range(cell) {
            Some(r) => SpanInfo {
                is_spanning: true,
                is_origin: cell.col == r.top_left.col && cell.row == r.top_left.row,
                col_span: r.bottom_right.col - r.top_left.col + 1,
                row_span: r.bottom_right.row - r.top_left.row + 1,
                origin: r.top_left,
            },
            None => SpanInfo { is_spanning: false, is_origin: true, col_span: 1, row_span: 1, origin: *cell },
        }
    }

    /// The text of the cell when it is the corner of a range and the rows hold it.
    pub fn extract_spanning_cell_content(&self, cell: &CellCoordinates, data: &[Row]) -> (res: Option<String>)
        ensures
            res matches Some(s) ==> self.containing(*cell) is Some,
            match self.containing(*cell) {
                Some(r) => if cell.col == r.top_left.col && cell.row == r.top_left.row && r.top_left.row
                    < data@.len() && r.top_left.col < data@[r.top_left.row as int]@.len() {
                    res matches Some(s) && s@ == table_view(data@)[r.top_left.row as int][r.top_left.col as int]
                } else {
                    res is None
                },
                None => res is None,
            },
    {
        if let Some(r) = self.get_containing_range(cell) {
            if cell.col == r.top_left.col && cell.row == r.top_left.row && r.top_left.row < data.len() && r.top_left.col
                < data[r.top_left.row].len() {
                return Some(owned(data[r.top_left.row][r.top_left.col].as_str()));
            }
        }
        None
    }
}

/// The first range that holds a cell holds it.
proof fn lemma_first_containing(ranges: Seq<RangeConfig>, cell: CellCoordinates, i: int)
    requires
        0 <= i,
    ensures
        first_containing(ranges, cell, i) matches Some(k) ==> i <= k < ranges.len() && in_rect(
            cell,
            ranges[k as int].top_left,
            ranges[k as int].bottom_right,
        ),
    decreases ranges.len() - i,
{
    if i < ranges.len() && !in_rect(cell, ranges[i].top_left, ranges[i].bottom_right) {
        lemma_first_containing(ranges, cell, i + 1);
    }
}

/// How a cell is spanned.
#[derive(Debug, Clone, Copy, PartialEq, Eq, Structural)]
pub struct SpanInfo {
    pub is_spanning: bool,
    pub is_origin: bool,
    pub col_span: usize,
    pub row_span: usize,
    pub origin: CellCoordinates,
}

/// The range of a spanning cell with its layout (see `range_config_of`).
fn create_range_config(config: &SpanningCellConfig, columns: &[ColumnConfig]) -> (res: RangeConfig)
    requires
        corner_fits(*config),
    ensures
        res == range_config_of(*config, columns@),
{
    let range = calculate_range_coordinate(config);
    let d: ColumnConfig = if config.col < columns.len() { columns[config.col] } else { ColumnConfig::default() };
    let cell_config = CellConfig {
        alignment: unwrap_or(config.alignment, d.alignment),
        vertical_alignment: unwrap_or(config.vertical_alignment, d.vertical_alignment),
        padding_left: unwrap_or(config.padding_left, d.padding_left),
        padding_right: unwrap_or(config.padding_right, d.padding_right),
        truncate: unwrap_or(config.truncate, d.truncate),
        wrap_word: unwrap_or(config.wrap_word, d.wrap_word),
    };
    RangeConfig { top_left: range.top_left, bottom_right: range.bottom_right, config: cell_config }
}

/// The rectangle a spanning cell covers (see `range_of`).
pub fn calculate_range_coordinate(spanning_cell_config: &SpanningCellConfig) -> (res: RangeCoordinate)
    requires
        corner_fits(*spanning_cell_config),
    ensures
        res == range_of(*spanning_cell_config),
{
    let col_span = unwrap_or(spanning_cell_config.col_span, 1);
    let row_span = unwrap_or(spanning_cell_config.row_span, 1);
    RangeCoordinate {
        top_left: CellCoordinates { col: spanning_cell_config.col, row: spanning_cell_config.row },
        bottom_right: CellCoordinates {
            col: spanning_cell_config.col + col_span - 1,
            row: spanning_cell_config.row + row_span - 1,
        },
    }
}

/// Whether two cells are at the same place.
pub fn are_cells_equal(cell1: &CellCoordinates, cell2: &CellCoordinates) -> (res: bool)
    ensures
        res == (cell1 == cell2),
{
    cell1.col == cell2.col && cell1.row == cell2.row
}

/// Whether a cell lies in a rectangle, corners included.
pub fn is_cell_in_range(cell: &CellCoordinates, range: &RangeCoordinate) -> (res: bool)
    ensures
        res == in_rect(*cell, range.top_left, range.bottom_right),
{
    cell.col >= range.top_left.col && cell.col <= range.bottom_right.col && cell.row >= range.top_left.row && cell.row
        <= range.bottom_right.row
}

} // verus!
