use crate::pipeline::calculator::{
    calculate_output_column_widths, calculate_row_heights, column_config_at, column_config_of,
    content_width, groups_view, map_data_using_row_heights, mapped_spec, nats, output_widths_spec,
    row_heights_spec, width_at,
};
use crate::pipeline::renderer::{
    border_line_spec, draw_border_line, draw_row, draw_row_spec, BorderType,
};
use crate::text::{concat3, empty_string, owned, push_char, push_str, spaces, spaces_string, views};
use crate::types::borders::{border_view, named_style};
use crate::types::config::{
    copy_columns, copy_user_border, copy_user_columns, default_column, merge_columns,
    merged_column, or_default, seq_pick_border, unwrap_or,
};
use crate::types::{ColumnConfig, ColumnUserConfig, Row, StreamConfig, StreamUserConfig, TableConfig, TableError};
use crate::utils::ansi::{
    justify_ok, pad_ansi_spec, truncate_ansi_spec, truncate_ansi_string, try_pad_ansi_string,
};
use crate::utils::formatting::{rows_fit_first, table_view};
use vstd::prelude::*;

verus! {

/// The column a stream gives each cell when no columns are set: ten wide, otherwise the
/// defaults.
pub open spec fn stream_column() -> ColumnConfig {
    ColumnConfig { width: 10, ..default_column() }
}

/// A row of `n` empty cells.
pub open spec fn blank_row(n: nat) -> Seq<Seq<char>> {
    Seq::new(n, |i: int| Seq::<char>::empty())
}

/// The settings after the columns are set up for rows of `n` cells: the same, with `n`
/// stream columns when none were set.
pub open spec fn initialized(before: TableConfig, after: TableConfig, n: nat) -> bool {
    &&& after.border == before.border
    &&& after.column_default == before.column_default
    &&& after.single_line == before.single_line
    &&& after.spanning_cells@ == before.spanning_cells@
    &&& after.header == before.header
    &&& after.columns@ == if before.columns@.len() == 0 {
        Seq::new(n, |i: int| stream_column())
    } else {
        before.columns@
    }
}

/// The text of a cell in a column of settings `cc` drawn `target` wide: cut to the column's
/// limit (when it has one), placed in the room left by the padding, and padded.
pub open spec fn stream_cell(cell: Seq<char>, cc: ColumnConfig, target: nat) -> Seq<char> {
    let t = if cc.truncate > 0 {
        truncate_ansi_spec(cell, cc.truncate as nat)
    } else {
        cell
    };
    spaces(cc.padding_left as nat) + pad_ansi_spec(t, content_width(target, cc), cc.alignment)
        + spaces(cc.padding_right as nat)
}

/// Whether a cell can be placed: a justified cell's words fit its room.
pub open spec fn stream_cell_ok(cell: Seq<char>, cc: ColumnConfig, target: nat) -> bool {
    let t = if cc.truncate > 0 {
        truncate_ansi_spec(cell, cc.truncate as nat)
    } else {
        cell
    };
    justify_ok(t, content_width(target, cc), cc.alignment)
}

/// The cells of one line of a row, each placed in its column.
pub open spec fn line_cells(line: Seq<Seq<char>>, config: TableConfig, widths: Seq<nat>) -> Seq<
    Seq<char>,
> {
    Seq::new(
        line.len(),
        |k: int| stream_cell(line[k], column_config_at(config, k), width_at(widths, k)),
    )
}

/// Whether every cell of every line can be placed.
pub open spec fn lines_ok(lines: Seq<Seq<Seq<char>>>, config: TableConfig, widths: Seq<nat>) -> bool {
    forall|l: int, k: int|
        0 <= l < lines.len() && 0 <= k < lines[l].len() ==> #[trigger] stream_cell_ok(
            lines[l][k],
            column_config_at(config, k),
            width_at(widths, k),
        )
}

/// The lines of a row drawn one under the other, each ended by a line feed.
pub open spec fn lines_text(lines: Seq<Seq<Seq<char>>>, config: TableConfig, widths: Seq<nat>) -> Seq<
    char,
>
    decreases lines.len(),
{
    if lines.len() == 0 {
        Seq::empty()
    } else {
        lines_text(lines.drop_last(), config, widths) + draw_row_spec(
            line_cells(lines.last(), config, widths),
            config.border,
        ) + seq!['\n']
    }
}

/// A row split into lines as its cells wrap in their columns.
pub open spec fn row_lines(row: Seq<Seq<char>>, config: TableConfig) -> Seq<Seq<Seq<char>>> {
    let t = seq![row];
    mapped_spec(t, row_heights_spec(t, config), config)[0]
}

/// The text a stream gives for a row: the top line before the first row, a separating line
/// before the others, then the row's lines.
pub open spec fn stream_row_text(
    row: Seq<Seq<char>>,
    config: TableConfig,
    widths: Seq<nat>,
    first: bool,
) -> Seq<char> {
    border_line_spec(
        widths,
        config.border,
        if first {
            BorderType::Top
        } else {
            BorderType::Join
        },
    ) + seq!['\n'] + lines_text(row_lines(row, config), config, widths)
}

/// A table written one row at a time: each row's text is given back as it is added.
pub struct TableStream {
    config: TableConfig,
    column_widths: Vec<usize>,
    first_row: bool,
    row_count: usize,
}

impl TableStream {
    /// The settings the rows are drawn with.
    pub closed spec fn config(&self) -> TableConfig {
        self.config
    }

    /// The drawn width of each column; empty until the first row sets them.
    pub closed spec fn widths(&self) -> Seq<nat> {
        nats(self.column_widths@)
    }

    /// Whether no row has been drawn yet.
    pub closed spec fn is_first(&self) -> bool {
        self.first_row
    }

    /// The number of rows drawn.
    pub closed spec fn count(&self) -> nat {
        self.row_count as nat
    }

    /// A stream with the given settings over the defaults, no columns set up, no row drawn.
    pub fn new(user_config: Option<StreamUserConfig>) -> (res: Self)
        ensures
            is_merged_stream(
                res.config().border,
                res.config().columns@,
                res.config().column_default,
                res.config().single_line,
                match user_config {
                    Some(u) => u,
                    None => empty_user(),
                },
                named_style("honeywell"@).unwrap(),
                Seq::empty(),
                default_column(),
                false,
            ),
            res.config().spanning_cells@.len() == 0,
            res.config().header is None,
            res.widths().len() == 0,
            res.is_first(),
            res.count() == 0,
    {
        let config = match user_config {
            Some(u) => u.merge_with_default(&StreamConfig::default()),
            None => {
                let d = StreamConfig::default();
                assert(border_view(d.border) =~= named_style("honeywell"@).unwrap());
                d
            },
        };
        TableStream {
            config: TableConfig::from_stream_config(config),
            column_widths: Vec::new(),
            first_row: true,
            row_count: 0,
        }
    }

    /// Whether no row has been drawn yet.
    pub fn first_row(&self) -> (res: bool)
        ensures
            res == self.is_first(),
    {
        self.first_row
    }

    /// The number of rows drawn.
    pub fn row_count(&self) -> (res: usize)
        ensures
            res == self.count(),
    {
        self.row_count
    }

    /// Sets the columns up for rows of `column_count` cells: ten-wide columns when none are
    /// set, and the drawn widths of an empty row.
    pub fn initialize_columns(&mut self, column_count: usize)
        ensures
            initialized(old(self).config(), final(self).config(), column_count as nat),
            final(self).widths() == output_widths_spec(
                seq![blank_row(column_count as nat)],
                final(self).config(),
            ),
            final(self).is_first() == old(self).is_first(),
            final(self).count() == old(self).count(),
    {
        if self.config.columns.len() == 0 {
            let mut cols: Vec<ColumnConfig> = Vec::new();
            let mut i: usize = 0;
            while i < column_count
                invariant
                    i <= column_count,
                    cols@ == Seq::new(i as nat, |k: int| stream_column()),
                decreases column_count - i,
            {
                let d = ColumnConfig::default();
                cols.push(ColumnConfig { width: 10, ..d });
                i = i + 1;
                assert(cols@ =~= Seq::new(i as nat, |k: int| stream_column()));
            }
            self.config.columns = cols;
        }
        let mut blank: Row = Vec::new();
        let mut i: usize = 0;
        while i < column_count
            invariant
                i <= column_count,
                views(blank@) == blank_row(i as nat),
            decreases column_count - i,
        {
            let ghost before = views(blank@);
            let e = empty_string();
            blank.push(e);
            assert(views(blank@) =~= before.push(e@));
            i = i + 1;
            assert(views(blank@) =~= blank_row(i as nat));
        }
        let dummy: Vec<Row> = vec![blank];
        assert(table_view(dummy@) =~= seq![blank_row(column_count as nat)]);
        assert(rows_fit_first(table_view(dummy@)));
        self.column_widths = calculate_output_column_widths(dummy.as_slice(), &self.config);
    }

    /// Draws a row. The columns are set up from it first when they are not yet; a row with
    /// another number of cells than there are columns is refused, as is one whose justified
    /// text does not fit; else the text of `stream_row_text` is given back.
#[verifier::spinoff_prover]
    pub fn write_row(&mut self, row: &[String]) -> (res: Result<String, TableError>)
        requires
            old(self).count() < usize::MAX,
        ensures
            old(self).widths().len() == 0 ==> initialized(
                old(self).config(),
                final(self).config(),
                row@.len(),
            ) && final(self).widths() == output_widths_spec(
                seq![blank_row(row@.len())],
                final(self).config(),
            ),
            old(self).widths().len() != 0 ==> final(self).config() == old(self).config()
                && final(self).widths() == old(self).widths(),
            row@.len() != final(self).widths().len() ==> res == Err::<String, TableError>(
                TableError::InconsistentRowLength,
            ),
            row@.len() == final(self).widths().len() && !lines_ok(
                row_lines(views(row@), final(self).config()),
                final(self).config(),
                final(self).widths(),
            ) ==> (res matches Err(TableError::InvalidConfig(m)) && m@ == justify_overflow()),
            res is Ok <==> row@.len() == final(self).widths().len() && lines_ok(
                row_lines(views(row@), final(self).config()),
                final(self).config(),
                final(self).widths(),
            ),
            res matches Ok(s) ==> (s@ == stream_row_text(
                views(row@),
                final(self).config(),
                final(self).widths(),
                old(self).is_first(),
            ) && !final(self).is_first() && final(self).count() == old(self).count() + 1),
            res is Err ==> final(self).is_first() == old(self).is_first() && final(self).count()
                == old(self).count(),
            res is Err && old(self).widths().len() != 0 ==> *final(self) == *old(self),
    {
        if self.column_widths.len() == 0 {
            self.initialize_columns(row.len());
        }
        if row.len() != self.column_widths.len() {
            return Err(TableError::InconsistentRowLength);
        }
        let rows_data: Vec<Row> = vec![copy_cells(row)];
        assert(table_view(rows_data@) =~= seq![views(row@)]);
        assert(rows_fit_first(table_view(rows_data@)));
        let row_heights = calculate_row_heights(rows_data.as_slice(), &self.config);
        let mapped = map_data_using_row_heights(rows_data.as_slice(), row_heights.as_slice(), &self.config);
        let ghost lines = row_lines(views(row@), self.config);
        assert(groups_view(mapped@).len() == mapped@.len());
        assert(mapped@.len() == 1);
        assert(groups_view(mapped@)[0] == table_view(mapped@[0]@));
        let sub_rows = &mapped[0];
        assert(table_view(sub_rows@) == lines);
        let body = match self.draw_lines(sub_rows) {
            Some(b) => b,
            None => {
                return Err(TableError::InvalidConfig(owned(justify_overflow_text())));
            },
        };
        let border_type = if self.first_row {
            BorderType::Top
        } else {
            BorderType::Join
        };
        let mut result = draw_border_line(self.column_widths.as_slice(), &self.config.border, border_type);
        push_char(&mut result, '\n');
        push_str(&mut result, body.as_str());
        self.first_row = false;
        self.row_count = self.row_count + 1;
        Ok(result)
    }

    /// The lines of a row drawn, or `None` when a justified cell does not fit.
#[verifier::spinoff_prover]
    fn draw_lines(&self, lines: &Vec<Row>) -> (res: Option<String>)
        ensures
            res is Some <==> lines_ok(table_view(lines@), self.config, nats(self.column_widths@)),
            res matches Some(s) ==> s@ == lines_text(
                table_view(lines@),
                self.config,
                nats(self.column_widths@),
            ),
    {
        let ghost t = table_view(lines@);
        let ghost w = nats(self.column_widths@);
        let mut out = String::new();
        let mut l: usize = 0;
        while l < lines.len()
            invariant
                l <= lines@.len(),
                t == table_view(lines@),
                w == nats(self.column_widths@),
                lines_ok(t.take(l as int), self.config, w),
                out@ == lines_text(t.take(l as int), self.config, w),
            decreases lines@.len() - l,
        {
            let cells = match self.process_row_data(&lines[l]) {
                Some(c) => c,
                None => {
                    proof {
                        let k = choose|k: int|
                            0 <= k < t[l as int].len() && !stream_cell_ok(
                                t[l as int][k],
                                column_config_at(self.config, k),
                                width_at(w, k),
                            );
                        assert(!stream_cell_ok(t[l as int][k], column_config_at(self.config, k), width_at(w, k)));
                    }
                    return None;
                },
            };
            let line = draw_row(cells.as_slice(), self.column_widths.as_slice(), &self.config.border);
            push_str(&mut out, line.as_str());
            push_char(&mut out, '\n');
            proof {
                assert(t.take(l + 1).drop_last() =~= t.take(l as int));
                assert(t.take(l + 1).last() == t[l as int]);
                assert(views(cells@) == line_cells(t[l as int], self.config, w));
                assert forall|a: int, k: int|
                    0 <= a < t.take(l + 1).len() && 0 <= k < t.take(l + 1)[a].len() implies #[trigger] stream_cell_ok(
                    t.take(l + 1)[a][k],
                    column_config_at(self.config, k),
                    width_at(w, k),
                ) by {
                    if a < l {
                        assert(t.take(l + 1)[a] == t.take(l as int)[a]);
                    } else {
                        assert(t.take(l + 1)[a] == t[l as int]);
                        assert(t[l as int] == views(lines@[l as int]@));
                        assert(t[l as int][k] == lines@[l as int]@[k]@);
                    }
                }
            }
            l = l + 1;
        }
        assert(t.take(l as int) =~= t);
        Some(out)
    }

    /// The cells of one line placed in their columns, or `None` when a justified cell does
    /// not fit.
    fn process_row_data(&self, row: &Row) -> (res: Option<Row>)
        ensures
            res is Some <==> forall|k: int|
                0 <= k < row@.len() ==> #[trigger] stream_cell_ok(
                    row@[k]@,
                    column_config_at(self.config, k),
                    width_at(nats(self.column_widths@), k),
                ),
            res matches Some(r) ==> views(r@) == line_cells(
                views(row@),
                self.config,
                nats(self.column_widths@),
            ),
    {
        let ghost w = nats(self.column_widths@);
        let mut processed: Row = Vec::new();
        let mut k: usize = 0;
        while k < row.len()
            invariant
                k <= row@.len(),
                w == nats(self.column_widths@),
                processed@.len() == k,
                forall|j: int|
                    0 <= j < k ==> #[trigger] stream_cell_ok(
                        row@[j]@,
                        column_config_at(self.config, j),
                        width_at(w, j),
                    ),
                forall|j: int|
                    0 <= j < k ==> (#[trigger] processed@[j])@ == stream_cell(
                        row@[j]@,
                        column_config_at(self.config, j),
                        width_at(w, j),
                    ),
            decreases row@.len() - k,
        {
            let cc = column_config_of(&self.config, k);
            let target: usize = if k < self.column_widths.len() {
                self.column_widths[k]
            } else {
                0
            };
            assert(target as nat == width_at(w, k as int));
            let content = if cc.truncate > 0 {
                truncate_ansi_string(row[k].as_str(), cc.truncate).content
            } else {
                owned(row[k].as_str())
            };
            let room = target.saturating_sub(cc.padding_left.saturating_add(cc.padding_right));
            let aligned = match try_pad_ansi_string(content.as_str(), room, cc.alignment) {
                Some(a) => a.content,
                None => {
                    assert(!stream_cell_ok(row@[k as int]@, cc, target as nat));
                    return None;
                },
            };
            let left = spaces_string(cc.padding_left);
            let right = spaces_string(cc.padding_right);
            assert(stream_cell_ok(row@[k as int]@, cc, target as nat));
            let cell = concat3(left.as_str(), aligned.as_str(), right.as_str());
            assert(cell@ == stream_cell(row@[k as int]@, cc, target as nat));
            processed.push(cell);
            k = k + 1;
        }
        assert(views(processed@) =~= line_cells(views(row@), self.config, w));
        Some(processed)
    }

    /// The closing line once at least one row is drawn, else nothing.
    pub fn finalize(&mut self) -> (res: String)
        ensures
            *final(self) == *old(self),
            res@ == if old(self).is_first() {
                Seq::<char>::empty()
            } else {
                border_line_spec(old(self).widths(), old(self).config().border, BorderType::Bottom)
            },
    {
        if !self.first_row {
            draw_border_line(self.column_widths.as_slice(), &self.config.border, BorderType::Bottom)
        } else {
            String::new()
        }
    }
}

/// A stream drawn into a string, one row's text at a time.
pub fn create_string_stream(config: Option<StreamUserConfig>) -> (res: TableStream)
    ensures
        is_merged_stream(
            res.config().border,
            res.config().columns@,
            res.config().column_default,
            res.config().single_line,
            match config {
                Some(u) => u,
                None => empty_user(),
            },
            named_style("honeywell"@).unwrap(),
            Seq::empty(),
            default_column(),
            false,
        ),
        res.config().spanning_cells@.len() == 0,
        res.config().header is None,
        res.widths().len() == 0,
        res.is_first(),
        res.count() == 0,
{
    TableStream::new(config)
}

/// Something a stream's text can be written to, a chunk at a time.
pub trait WritableStream {
    fn write(&mut self, chunk: &str) -> crate::types::TableResult<()>;
}

/// A copy of a row's cells.
fn copy_cells(row: &[String]) -> (res: Row)
    ensures
        views(res@) == views(row@),
{
    let mut out: Row = Vec::new();
    let mut i: usize = 0;
    while i < row.len()
        invariant
            i <= row@.len(),
            views(out@) == views(row@).take(i as int),
        decreases row@.len() - i,
    {
        let ghost before = views(out@);
        let item = owned(row[i].as_str());
        out.push(item);
        assert(views(out@) =~= before.push(item@));
        i = i + 1;
        assert(views(out@) =~= views(row@).take(i as int));
    }
    assert(views(row@).take(i as int) =~= views(row@));
    out
}

/// The message given when a justified cell's words do not fit its column.
pub open spec fn justify_overflow() -> Seq<char> {
    "Justified text does not fit its column"@
}

fn justify_overflow_text() -> (res: &'static str)
    ensures
        res@ == justify_overflow(),
{
    let s = "Justified text does not fit its column";
    proof {
        reveal_strlit("Justified text does not fit its column");
    }
    s
}

/// Stream settings with nothing given.
pub open spec fn empty_user() -> StreamUserConfig {
    StreamUserConfig { border: None, columns: None, column_default: None, single_line: None }
}

/// Whether the settings `border`, `columns`, `column_default` and `single_line` are `u`
/// over the defaults `d_*`: each given setting wins, given columns take the merged column
/// default as their base.
pub open spec fn is_merged_stream(
    border: crate::types::BorderConfig,
    columns: Seq<ColumnConfig>,
    column_default: ColumnConfig,
    single_line: bool,
    u: StreamUserConfig,
    d_border: Seq<Seq<char>>,
    d_columns: Seq<ColumnConfig>,
    d_column_default: ColumnConfig,
    d_single_line: bool,
) -> bool {
    &&& border_view(border) == match u.border {
        Some(b) => seq_pick_border(b, d_border),
        None => d_border,
    }
    &&& column_default == match u.column_default {
        Some(c) => merged_column(c, d_column_default),
        None => d_column_default,
    }
    &&& columns == match u.columns {
        Some(cols) => cols@.map_values(|c: ColumnUserConfig| merged_column(c, column_default)),
        None => d_columns,
    }
    &&& single_line == or_default(u.single_line, d_single_line)
}

impl StreamUserConfig {
    /// Each setting that is given, and the default's where it is not; given columns are
    /// merged over the (merged) column default.
    pub fn merge_with_default(self, default: &StreamConfig) -> (res: StreamConfig)
        ensures
            is_merged_stream(
                res.border,
                res.columns@,
                res.column_default,
                res.single_line,
                self,
                border_view(default.border),
                default.columns@,
                default.column_default,
                default.single_line,
            ),
    {
        let border = match copy_user_border(&self.border) {
            Some(b) => {
                let r = b.merge_with_default(&default.border);
                assert(border_view(r) =~= seq_pick_border(b, border_view(default.border)));
                r
            },
            None => default.border.duplicate(),
        };
        let column_default = match self.column_default {
            Some(c) => c.merge_with_default(&default.column_default),
            None => default.column_default,
        };
        let columns = match &self.columns {
            Some(cols) => merge_columns(copy_user_columns(cols), &column_default),
            None => copy_columns(&default.columns),
        };
        StreamConfig {
            border,
            columns,
            column_default,
            single_line: unwrap_or(self.single_line, default.single_line),
        }
    }
}

} // verus!
