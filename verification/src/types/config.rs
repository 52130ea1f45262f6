use crate::types::borders::{border_view, merged_border_view, named_style};
use crate::types::{Alignment, BorderConfig, BorderUserConfig, VerticalAlignment};
use vstd::prelude::*;

verus! {

/// How one cell is laid out.
#[derive(Debug, Clone, Copy, PartialEq, Eq, Structural)]
pub struct CellConfig {
    pub alignment: Alignment,
    pub vertical_alignment: VerticalAlignment,
    pub padding_left: usize,
    pub padding_right: usize,
    pub truncate: usize,
    pub wrap_word: bool,
}

impl Default for CellConfig {
    fn default() -> (res: Self)
        ensures
            res == (CellConfig {
                alignment: Alignment::Left,
                vertical_alignment: VerticalAlignment::Top,
                padding_left: 1,
                padding_right: 1,
                truncate: 0,
                wrap_word: false,
            }),
    {
        CellConfig {
            alignment: Alignment::Left,
            vertical_alignment: VerticalAlignment::Top,
            padding_left: 1,
            padding_right: 1,
            truncate: 0,
            wrap_word: false,
        }
    }
}

/// Cell settings that each may be given or left to a default.
#[derive(Debug, Clone, Copy, PartialEq, Eq, Structural)]
pub struct CellUserConfig {
    pub alignment: Option<Alignment>,
    pub vertical_alignment: Option<VerticalAlignment>,
    pub padding_left: Option<usize>,
    pub padding_right: Option<usize>,
    pub truncate: Option<usize>,
    pub wrap_word: Option<bool>,
}

/// The value given, or the default.
pub open spec fn or_default<T>(given: Option<T>, default: T) -> T {
    match given {
        Some(v) => v,
        None => default,
    }
}

/// The given cell settings over the defaults.
pub open spec fn merged_cell(u: CellUserConfig, d: CellConfig) -> CellConfig {
    CellConfig {
        alignment: or_default(u.alignment, d.alignment),
        vertical_alignment: or_default(u.vertical_alignment, d.vertical_alignment),
        padding_left: or_default(u.padding_left, d.padding_left),
        padding_right: or_default(u.padding_right, d.padding_right),
        truncate: or_default(u.truncate, d.truncate),
        wrap_word: or_default(u.wrap_word, d.wrap_word),
    }
}

/// The given value, or the default (`Option::unwrap_or`).
pub fn unwrap_or<T: Copy>(given: Option<T>, default: T) -> (res: T)
    ensures
        res == or_default(given, default),
{
    match given {
        Some(v) => v,
        None => default,
    }
}

impl CellUserConfig {
    /// Each setting that is given, and the default's where it is not.
    pub fn merge_with_default(self, default: &CellConfig) -> (res: CellConfig)
        ensures
            res == merged_cell(self, *default),
    {
        CellConfig {
            alignment: unwrap_or(self.alignment, default.alignment),
            vertical_alignment: unwrap_or(self.vertical_alignment, default.vertical_alignment),
            padding_left: unwrap_or(self.padding_left, default.padding_left),
            padding_right: unwrap_or(self.padding_right, default.padding_right),
            truncate: unwrap_or(self.truncate, default.truncate),
            wrap_word: unwrap_or(self.wrap_word, default.wrap_word),
        }
    }
}

/// How one column is laid out; a width of 0 means "fit the content".
#[derive(Debug, Clone, Copy, PartialEq, Eq, Structural)]
pub struct ColumnConfig {
    pub alignment: Alignment,
    pub vertical_alignment: VerticalAlignment,
    pub padding_left: usize,
    pub padding_right: usize,
    pub truncate: usize,
    pub wrap_word: bool,
    pub width: usize,
}

/// The column settings used when none are given.
pub open spec fn default_column() -> ColumnConfig {
    ColumnConfig {
        alignment: Alignment::Left,
        vertical_alignment: VerticalAlignment::Top,
        padding_left: 1,
        padding_right: 1,
        truncate: 0,
        wrap_word: false,
        width: 0,
    }
}

impl Default for ColumnConfig {
    fn default() -> (res: Self)
        ensures
            res == default_column(),
    {
        ColumnConfig {
            alignment: Alignment::Left,
            vertical_alignment: VerticalAlignment::Top,
            padding_left: 1,
            padding_right: 1,
            truncate: 0,
            wrap_word: false,
            width: 0,
        }
    }
}

/// Column settings that each may be given or left to a default.
#[derive(Debug, Clone, Copy, PartialEq, Eq, Structural)]
pub struct ColumnUserConfig {
    pub alignment: Option<Alignment>,
    pub vertical_alignment: Option<VerticalAlignment>,
    pub padding_left: Option<usize>,
    pub padding_right: Option<usize>,
    pub truncate: Option<usize>,
    pub wrap_word: Option<bool>,
    pub width: Option<usize>,
}

impl Default for ColumnUserConfig {
    fn default() -> (res: Self)
        ensures
            res == (ColumnUserConfig {
                alignment: None,
                vertical_alignment: None,
                padding_left: None,
                padding_right: None,
                truncate: None,
                wrap_word: None,
                width: None,
            }),
    {
        ColumnUserConfig {
            alignment: None,
            vertical_alignment: None,
            padding_left: None,
            padding_right: None,
            truncate: None,
            wrap_word: None,
            width: None,
        }
    }
}

/// The given column settings over the defaults.
pub open spec fn merged_column(u: ColumnUserConfig, d: ColumnConfig) -> ColumnConfig {
    ColumnConfig {
        alignment: or_default(u.alignment, d.alignment),
        vertical_alignment: or_default(u.vertical_alignment, d.vertical_alignment),
        padding_left: or_default(u.padding_left, d.padding_left),
        padding_right: or_default(u.padding_right, d.padding_right),
        truncate: or_default(u.truncate, d.truncate),
        wrap_word: or_default(u.wrap_word, d.wrap_word),
        width: or_default(u.width, d.width),
    }
}

impl ColumnUserConfig {
    /// Each setting that is given, and the default's where it is not.
    pub fn merge_with_default(self, default: &ColumnConfig) -> (res: ColumnConfig)
        ensures
            res == merged_column(self, *default),
    {
        ColumnConfig {
            alignment: unwrap_or(self.alignment, default.alignment),
            vertical_alignment: unwrap_or(self.vertical_alignment, default.vertical_alignment),
            padding_left: unwrap_or(self.padding_left, default.padding_left),
            padding_right: unwrap_or(self.padding_right, default.padding_right),
            truncate: unwrap_or(self.truncate, default.truncate),
            wrap_word: unwrap_or(self.wrap_word, default.wrap_word),
            width: unwrap_or(self.width, default.width),
        }
    }
}

/// Each given column over `d`.
pub fn merge_columns(cols: Vec<ColumnUserConfig>, d: &ColumnConfig) -> (res: Vec<ColumnConfig>)
    ensures
        res@ == cols@.map_values(|c: ColumnUserConfig| merged_column(c, *d)),
{
    let mut res: Vec<ColumnConfig> = Vec::new();
    let mut i: usize = 0;
    while i < cols.len()
        invariant
            i <= cols.len(),
            res@ == cols@.take(i as int).map_values(|c: ColumnUserConfig| merged_column(c, *d)),
        decreases cols.len() - i,
    {
        res.push(cols[i].merge_with_default(d));
        i = i + 1;
        assert(res@ =~= cols@.take(i as int).map_values(|c: ColumnUserConfig| merged_column(c, *d)));
    }
    assert(cols@.take(cols.len() as int) =~= cols@);
    res
}

/// The position of a cell.
#[derive(Debug, Clone, Copy, PartialEq, Eq, Structural)]
pub struct CellCoordinates {
    pub col: usize,
    pub row: usize,
}

/// A cell that spans several columns and rows, with its own layout settings.
#[derive(Debug, Clone, Copy, PartialEq, Eq, Structural)]
pub struct SpanningCellConfig {
    pub col: usize,
    pub row: usize,
    pub col_span: Option<usize>,
    pub row_span: Option<usize>,
    pub alignment: Option<Alignment>,
    pub vertical_alignment: Option<VerticalAlignment>,
    pub padding_left: Option<usize>,
    pub padding_right: Option<usize>,
    pub truncate: Option<usize>,
    pub wrap_word: Option<bool>,
}

/// A rectangle of cells, by its corners.
#[derive(Debug, Clone, Copy, PartialEq, Eq, Structural)]
pub struct RangeCoordinate {
    pub top_left: CellCoordinates,
    pub bottom_right: CellCoordinates,
}

/// A rectangle of cells with the layout of its content.
#[derive(Debug, Clone, Copy, PartialEq, Eq, Structural)]
pub struct RangeConfig {
    pub top_left: CellCoordinates,
    pub bottom_right: CellCoordinates,
    pub config: CellConfig,
}

/// Whether the vertical line before column `line_index` is drawn: always.
pub fn default_draw_vertical_line(line_index: usize, column_count: usize) -> (res: bool)
    ensures
        res,
{
    true
}

/// Whether the horizontal line before row `line_index` is drawn: always.
pub fn default_draw_horizontal_line(line_index: usize, row_count: usize) -> (res: bool)
    ensures
        res,
{
    true
}

/// The full settings of a table.
#[derive(Debug)]
pub struct TableConfig {
    pub border: BorderConfig,
    pub columns: Vec<ColumnConfig>,
    pub column_default: ColumnConfig,
    pub single_line: bool,
    pub spanning_cells: Vec<SpanningCellConfig>,
    pub header: Option<Box<TableConfig>>,
}

/// Whether `t` holds the default table settings.
pub open spec fn is_default_table(t: TableConfig) -> bool {
    &&& border_view(t.border) == named_style("honeywell"@).unwrap()
    &&& t.columns@ == Seq::<ColumnConfig>::empty()
    &&& t.column_default == default_column()
    &&& !t.single_line
    &&& t.spanning_cells@ == Seq::<SpanningCellConfig>::empty()
    &&& t.header is None
}

impl Default for TableConfig {
    fn default() -> (res: Self)
        ensures
            is_default_table(res),
    {
        TableConfig {
            border: BorderConfig::default(),
            columns: Vec::new(),
            column_default: ColumnConfig::default(),
            single_line: false,
            spanning_cells: Vec::new(),
            header: None,
        }
    }
}

/// Table settings that each may be given or left to a default.
#[derive(Debug, PartialEq, Eq)]
pub struct TableUserConfig {
    pub border: Option<BorderUserConfig>,
    pub columns: Option<Vec<ColumnUserConfig>>,
    pub column_default: Option<ColumnUserConfig>,
    pub single_line: Option<bool>,
    pub spanning_cells: Option<Vec<SpanningCellConfig>>,
    pub header: Option<Box<TableUserConfig>>,
}

impl Default for TableUserConfig {
    fn default() -> (res: Self)
        ensures
            res.border is None,
            res.columns is None,
            res.column_default is None,
            res.single_line is None,
            res.spanning_cells is None,
            res.header is None,
    {
        TableUserConfig {
            border: None,
            columns: None,
            column_default: None,
            single_line: None,
            spanning_cells: None,
            header: None,
        }
    }
}

/// Whether `res` is what merging `u` over the defaults `d_*` gives: each setting that `u`
/// holds wins, given columns take the merged column default as their base, and a header's
/// settings are merged over the default table settings.
pub open spec fn is_merged_table(
    res: TableConfig,
    u: TableUserConfig,
    d_border: Seq<Seq<char>>,
    d_columns: Seq<ColumnConfig>,
    d_column_default: ColumnConfig,
    d_single_line: bool,
    d_spanning: Seq<SpanningCellConfig>,
) -> bool
    decreases u,
{
    &&& border_view(res.border) == match u.border {
        Some(b) => seq_pick_border(b, d_border),
        None => d_border,
    }
    &&& res.column_default == match u.column_default {
        Some(c) => merged_column(c, d_column_default),
        None => d_column_default,
    }
    &&& res.columns@ == match u.columns {
        Some(cols) => cols@.map_values(|c: ColumnUserConfig| merged_column(c, res.column_default)),
        None => d_columns,
    }
    &&& res.single_line == or_default(u.single_line, d_single_line)
    &&& res.spanning_cells@ == match u.spanning_cells {
        Some(s) => s@,
        None => d_spanning,
    }
    &&& match u.header {
        None => res.header is None,
        Some(h) => res.header matches Some(rh) && is_merged_table(
            *rh,
            *h,
            named_style("honeywell"@).unwrap(),
            Seq::empty(),
            default_column(),
            false,
            Seq::empty(),
        ),
    }
}

/// The border pieces of `u` over the pieces `d`, in field order.
pub open spec fn seq_pick_border(u: BorderUserConfig, d: Seq<Seq<char>>) -> Seq<Seq<char>> {
    seq![
        opt_view(u.top_body, d[0]),
        opt_view(u.top_join, d[1]),
        opt_view(u.top_left, d[2]),
        opt_view(u.top_right, d[3]),
        opt_view(u.bottom_body, d[4]),
        opt_view(u.bottom_join, d[5]),
        opt_view(u.bottom_left, d[6]),
        opt_view(u.bottom_right, d[7]),
        opt_view(u.body_left, d[8]),
        opt_view(u.body_right, d[9]),
        opt_view(u.body_join, d[10]),
        opt_view(u.header_join, d[11]),
        opt_view(u.join_body, d[12]),
        opt_view(u.join_left, d[13]),
        opt_view(u.join_right, d[14]),
        opt_view(u.join_join, d[15]),
    ]
}

/// The view of a given string, or `d`.
pub open spec fn opt_view(o: Option<String>, d: Seq<char>) -> Seq<char> {
    match o {
        Some(s) => s@,
        None => d,
    }
}

/// A copy of the list of spanning cells.
pub fn copy_spanning(v: &Vec<SpanningCellConfig>) -> (res: Vec<SpanningCellConfig>)
    ensures
        res@ == v@,
{
    let mut res: Vec<SpanningCellConfig> = Vec::new();
    let mut i: usize = 0;
    while i < v.len()
        invariant
            i <= v.len(),
            res@ == v@.take(i as int),
        decreases v.len() - i,
    {
        res.push(v[i]);
        i = i + 1;
        assert(res@ =~= v@.take(i as int));
    }
    assert(v@.take(v.len() as int) =~= v@);
    res
}

/// A copy of a list of column settings.
pub fn copy_columns(v: &Vec<ColumnConfig>) -> (res: Vec<ColumnConfig>)
    ensures
        res@ == v@,
{
    let mut res: Vec<ColumnConfig> = Vec::new();
    let mut i: usize = 0;
    while i < v.len()
        invariant
            i <= v.len(),
            res@ == v@.take(i as int),
        decreases v.len() - i,
    {
        res.push(v[i]);
        i = i + 1;
        assert(res@ =~= v@.take(i as int));
    }
    assert(v@.take(v.len() as int) =~= v@);
    res
}

/// A copy of an optional string.
pub fn copy_opt_string(o: &Option<String>) -> (res: Option<String>)
    ensures
        res == *o,
{
    match o {
        Some(s) => Some(s.clone()),
        None => None,
    }
}

/// A copy of optional border pieces.
pub fn copy_user_border(b: &Option<BorderUserConfig>) -> (res: Option<BorderUserConfig>)
    ensures
        res == *b,
{
    match b {
        Some(b) => Some(BorderUserConfig {
            top_body: copy_opt_string(&b.top_body),
            top_join: copy_opt_string(&b.top_join),
            top_left: copy_opt_string(&b.top_left),
            top_right: copy_opt_string(&b.top_right),
            bottom_body: copy_opt_string(&b.bottom_body),
            bottom_join: copy_opt_string(&b.bottom_join),
            bottom_left: copy_opt_string(&b.bottom_left),
            bottom_right: copy_opt_string(&b.bottom_right),
            body_left: copy_opt_string(&b.body_left),
            body_right: copy_opt_string(&b.body_right),
            body_join: copy_opt_string(&b.body_join),
            header_join: copy_opt_string(&b.header_join),
            join_body: copy_opt_string(&b.join_body),
            join_left: copy_opt_string(&b.join_left),
            join_right: copy_opt_string(&b.join_right),
            join_join: copy_opt_string(&b.join_join),
        }),
        None => None,
    }
}

/// A copy of a list of user column settings.
pub fn copy_user_columns(v: &Vec<ColumnUserConfig>) -> (res: Vec<ColumnUserConfig>)
    ensures
        res@ == v@,
{
    let mut res: Vec<ColumnUserConfig> = Vec::new();
    let mut i: usize = 0;
    while i < v.len()
        invariant
            i <= v.len(),
            res@ == v@.take(i as int),
        decreases v.len() - i,
    {
        res.push(v[i]);
        i = i + 1;
        assert(res@ =~= v@.take(i as int));
    }
    assert(v@.take(v.len() as int) =~= v@);
    res
}

impl TableUserConfig {
    /// Each setting that is given, and the default's where it is not; given columns are
    /// merged over the (merged) column default, and a header over the default settings.
    pub fn merge_with_default(self, default: &TableConfig) -> (res: TableConfig)
        ensures
            is_merged_table(
                res,
                self,
                border_view(default.border),
                default.columns@,
                default.column_default,
                default.single_line,
                default.spanning_cells@,
            ),
    {
        self.merge_ref(default)
    }

    /// `merge_with_default` on a borrowed value.
    pub fn merge_ref(&self, default: &TableConfig) -> (res: TableConfig)
        ensures
            is_merged_table(
                res,
                *self,
                border_view(default.border),
                default.columns@,
                default.column_default,
                default.single_line,
                default.spanning_cells@,
            ),
        decreases self,
    {
        let border = match copy_user_border(&self.border) {
            Some(b) => {
                let r = b.merge_with_default(&default.border);
                assert(border_view(r) =~= seq_pick_border(b, border_view(default.border)));
                r
            },
            None => default.border.duplicate(),
        };
        let column_default = match self.column_default {
            Some(c) => c.merge_with_default(&default.column_default),
            None => default.column_default,
        };
        let columns = match &self.columns {
            Some(cols) => merge_columns(copy_user_columns(cols), &column_default),
            None => copy_columns(&default.columns),
        };
        let header = match &self.header {
            Some(h) => {
                let d = TableConfig::default();
                let merged = (**h).merge_ref(&d);
                Some(Box::new(merged))
            },
            None => None,
        };
        let spanning_cells = match &self.spanning_cells {
            Some(s) => copy_spanning(s),
            None => copy_spanning(&default.spanning_cells),
        };
        TableConfig {
            border,
            columns,
            column_default,
            single_line: unwrap_or(self.single_line, default.single_line),
            spanning_cells,
            header,
        }
    }
}

/// The settings of a table written row by row.
#[derive(Debug, Clone)]
pub struct StreamConfig {
    pub border: BorderConfig,
    pub columns: Vec<ColumnConfig>,
    pub column_default: ColumnConfig,
    pub single_line: bool,
}

impl Default for StreamConfig {
    fn default() -> (res: Self)
        ensures
            border_view(res.border) == named_style("honeywell"@).unwrap(),
            res.columns@ == Seq::<ColumnConfig>::empty(),
            res.column_default == default_column(),
            !res.single_line,
    {
        StreamConfig {
            border: BorderConfig::default(),
            columns: Vec::new(),
            column_default: ColumnConfig::default(),
            single_line: false,
        }
    }
}

impl StreamConfig {
    /// A copy of the settings.
    pub fn duplicate(&self) -> (res: StreamConfig)
        ensures
            res.border == self.border,
            res.columns@ == self.columns@,
            res.column_default == self.column_default,
            res.single_line == self.single_line,
    {
        StreamConfig {
            border: self.border.duplicate(),
            columns: copy_columns(&self.columns),
            column_default: self.column_default,
            single_line: self.single_line,
        }
    }
}

impl TableConfig {
    /// The table settings that a stream's settings stand for: no spanning cells, no header.
    pub fn from_stream_config(s: StreamConfig) -> (res: TableConfig)
        ensures
            res.border == s.border,
            res.columns@ == s.columns@,
            res.column_default == s.column_default,
            res.single_line == s.single_line,
            res.spanning_cells@ == Seq::<SpanningCellConfig>::empty(),
            res.header is None,
    {
        TableConfig {
            border: s.border,
            columns: s.columns,
            column_default: s.column_default,
            single_line: s.single_line,
            spanning_cells: Vec::new(),
            header: None,
        }
    }
}

/// Stream settings that each may be given or left to a default.
#[derive(Debug, Clone, PartialEq, Eq)]
pub struct StreamUserConfig {
    pub border: Option<BorderUserConfig>,
    pub columns: Option<Vec<ColumnUserConfig>>,
    pub column_default: Option<ColumnUserConfig>,
    pub single_line: Option<bool>,
}

} // verus!
