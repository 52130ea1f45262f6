use crate::text::views;
use crate::types::{ColumnConfig, Row, TableConfig};
use crate::utils::ansi::sat_add;
use crate::utils::formatting::{
    calculate_maximum_column_widths, max_column_widths, rows_fit_first, table_view,
};
use crate::utils::wrapping::{calculate_cell_height, cell_height_spec, wrap_cell, wrap_spec};
use vstd::prelude::*;

verus! {

/// The settings of column `i`: its own, or the column default past the given columns.
pub open spec fn column_config_at(config: TableConfig, i: int) -> ColumnConfig {
    if 0 <= i < config.columns@.len() {
        config.columns@[i]
    } else {
        config.column_default
    }
}

/// The settings of column `i`.
pub fn column_config_of(config: &TableConfig, i: usize) -> (res: ColumnConfig)
    ensures
        res == column_config_at(*config, i as int),
{
    if i < config.columns.len() {
        config.columns[i]
    } else {
        config.column_default
    }
}

/// A column's padding on both sides (held at `usize::MAX`).
pub open spec fn pads(c: ColumnConfig) -> nat {
    sat_add(c.padding_left as nat, c.padding_right as nat)
}

/// The drawn width of a column whose widest cell is `max_width` wide: its given width, or the
/// content and padding; never less than the padding and one column. Sums are held at
/// `usize::MAX`.
pub open spec fn output_width(max_width: nat, c: ColumnConfig) -> nat {
    let width = if c.width > 0 {
        c.width as nat
    } else {
        sat_add(max_width, pads(c))
    };
    let min = sat_add(pads(c), 1);
    if width > min {
        width
    } else {
        min
    }
}

/// The numbers of a `usize` sequence.
pub open spec fn nats(v: Seq<usize>) -> Seq<nat> {
    v.map_values(|x: usize| x as nat)
}

/// The drawn width of each column.
pub open spec fn output_widths_spec(t: Seq<Seq<Seq<char>>>, config: TableConfig) -> Seq<nat> {
    let m = max_column_widths(t);
    Seq::new(m.len(), |i: int| output_width(m[i], column_config_at(config, i)))
}

/// The drawn width of each column: its given width, or its widest cell and padding.
pub fn calculate_output_column_widths(rows: &[Row], config: &TableConfig) -> (res: Vec<usize>)
    requires
        rows_fit_first(table_view(rows@)),
    ensures
        nats(res@) == output_widths_spec(table_view(rows@), *config),
{
    let max_widths = calculate_maximum_column_widths(rows);
    let ghost m = max_column_widths(table_view(rows@));
    let mut output_widths: Vec<usize> = Vec::new();
    let mut i: usize = 0;
    while i < max_widths.len()
        invariant
            i <= max_widths.len(),
            max_widths@.len() == m.len(),
            forall|c: int| 0 <= c < max_widths@.len() ==> max_widths@[c] == #[trigger] m[c],
            m == max_column_widths(table_view(rows@)),
            output_widths@.len() == i,
            forall|c: int|
                0 <= c < i ==> output_widths@[c] as nat == output_width(
                    m[c],
                    column_config_at(*config, c),
                ),
        decreases max_widths.len() - i,
    {
        let cc = column_config_of(config, i);
        let p = cc.padding_left.saturating_add(cc.padding_right);
        let width = if cc.width > 0 {
            cc.width
        } else {
            max_widths[i].saturating_add(p)
        };
        let min_width = p.saturating_add(1);
        let w = if width > min_width {
            width
        } else {
            min_width
        };
        assert(max_widths@[i as int] == m[i as int]);
        output_widths.push(w);
        i = i + 1;
    }
    assert(nats(output_widths@) =~= output_widths_spec(table_view(rows@), *config));
    output_widths
}

/// The width of column `i`, or 0 past the known columns.
pub open spec fn width_at(widths: Seq<nat>, i: int) -> nat {
    if 0 <= i < widths.len() {
        widths[i]
    } else {
        0
    }
}

/// The room for content in a column drawn `out_w` wide.
pub open spec fn content_width(out_w: nat, c: ColumnConfig) -> nat {
    if out_w > pads(c) {
        (out_w - pads(c)) as nat
    } else {
        0
    }
}

/// The lines of cell `c` of `row`, wrapped to its column's content width.
pub open spec fn wrapped_at(
    row: Seq<Seq<char>>,
    widths: Seq<nat>,
    config: TableConfig,
    c: int,
) -> Seq<Seq<char>> {
    let cc = column_config_at(config, c);
    wrap_spec(row[c], content_width(width_at(widths, c), cc), cc.wrap_word)
}

/// The height of the first `n` cells of a row: the most lines any of them takes, at least 1.
pub open spec fn row_height_upto(
    row: Seq<Seq<char>>,
    widths: Seq<nat>,
    config: TableConfig,
    n: int,
) -> nat
    decreases n,
{
    if n <= 0 {
        1
    } else {
        let rest = row_height_upto(row, widths, config, n - 1);
        let cc = column_config_at(config, n - 1);
        let h = cell_height_spec(
            row[n - 1],
            content_width(width_at(widths, n - 1), cc),
            cc.wrap_word,
        );
        if h > rest {
            h
        } else {
            rest
        }
    }
}

/// The height of each row.
pub open spec fn row_heights_spec(t: Seq<Seq<Seq<char>>>, config: TableConfig) -> Seq<nat> {
    let w = output_widths_spec(t, config);
    Seq::new(t.len(), |i: int| row_height_upto(t[i], w, config, t[i].len() as int))
}

/// The content width of column `i` for drawn widths `widths`.
fn content_width_of(widths: &Vec<usize>, cc: &ColumnConfig, i: usize) -> (res: usize)
    ensures
        res == content_width(width_at(nats(widths@), i as int), *cc),
{
    let w: usize = if i < widths.len() {
        widths[i]
    } else {
        0
    };
    w.saturating_sub(cc.padding_left.saturating_add(cc.padding_right))
}

/// The height of one row for drawn widths `widths`.
fn row_height(row: &Row, widths: &Vec<usize>, config: &TableConfig) -> (res: usize)
    ensures
        res == row_height_upto(views(row@), nats(widths@), *config, row@.len() as int),
{
    let mut max_height: usize = 1;
    let mut c: usize = 0;
    while c < row.len()
        invariant
            c <= row.len(),
            max_height == row_height_upto(views(row@), nats(widths@), *config, c as int),
        decreases row.len() - c,
    {
        let cc = column_config_of(config, c);
        let cw = content_width_of(widths, &cc, c);
        let h = calculate_cell_height(row[c].as_str(), cw, cc.wrap_word);
        assert(views(row@)[c as int] == row@[c as int]@);
        if h > max_height {
            max_height = h;
        }
        c = c + 1;
    }
    max_height
}

/// The height of each row: the most lines any of its cells takes once wrapped to its
/// column's content width, at least one.
pub fn calculate_row_heights(rows: &[Row], config: &TableConfig) -> (res: Vec<usize>)
    requires
        rows_fit_first(table_view(rows@)),
    ensures
        nats(res@) == row_heights_spec(table_view(rows@), *config),
{
    let column_widths = calculate_output_column_widths(rows, config);
    let mut row_heights: Vec<usize> = Vec::new();
    let mut i: usize = 0;
    while i < rows.len()
        invariant
            i <= rows.len(),
            nats(column_widths@) == output_widths_spec(table_view(rows@), *config),
            row_heights@.len() == i,
            forall|k: int|
                0 <= k < i ==> row_heights@[k] as nat == #[trigger] row_heights_spec(
                    table_view(rows@),
                    *config,
                )[k],
        decreases rows.len() - i,
    {
        let h = row_height(&rows[i], &column_widths, config);
        assert(table_view(rows@)[i as int] == views(rows@[i as int]@));
        row_heights.push(h);
        i = i + 1;
    }
    assert(nats(row_heights@) =~= row_heights_spec(table_view(rows@), *config));
    row_heights
}

/// Line `l` of `lines`, or the empty line past its end.
pub open spec fn line_or_empty(lines: Seq<Seq<char>>, l: int) -> Seq<char> {
    if 0 <= l < lines.len() {
        lines[l]
    } else {
        Seq::empty()
    }
}

/// The height given for row `i`, or 1 past the given heights.
pub open spec fn height_at(heights: Seq<nat>, i: int) -> nat {
    if 0 <= i < heights.len() {
        heights[i]
    } else {
        1
    }
}

/// A row split into `h` lines of cells, each cell's wrapped lines top-down, empty below
/// them.
pub open spec fn map_row_spec(
    row: Seq<Seq<char>>,
    h: nat,
    widths: Seq<nat>,
    config: TableConfig,
) -> Seq<Seq<Seq<char>>> {
    Seq::new(
        h,
        |l: int| Seq::new(row.len(), |c: int| line_or_empty(wrapped_at(row, widths, config, c), l)),
    )
}

/// Each row split into as many lines of cells as its height says.
pub open spec fn mapped_spec(t: Seq<Seq<Seq<char>>>, heights: Seq<nat>, config: TableConfig) -> Seq<
    Seq<Seq<Seq<char>>>,
> {
    let w = output_widths_spec(t, config);
    Seq::new(t.len(), |i: int| map_row_spec(t[i], height_at(heights, i), w, config))
}

/// The view of row groups.
pub open spec fn groups_view(g: Seq<Vec<Row>>) -> Seq<Seq<Seq<Seq<char>>>> {
    g.map_values(|rs: Vec<Row>| table_view(rs@))
}

/// One row split into `h` lines of cells.
fn map_row(row: &Row, h: usize, widths: &Vec<usize>, config: &TableConfig) -> (res: Vec<Row>)
    ensures
        table_view(res@) == map_row_spec(views(row@), h as nat, nats(widths@), *config),
{
    let mut wrapped: Vec<Vec<String>> = Vec::new();
    let mut c: usize = 0;
    while c < row.len()
        invariant
            c <= row.len(),
            wrapped@.len() == c,
            forall|k: int|
                0 <= k < c ==> views(#[trigger] wrapped@[k]@) == wrapped_at(
                    views(row@),
                    nats(widths@),
                    *config,
                    k,
                ),
        decreases row.len() - c,
    {
        let cc = column_config_of(config, c);
        let cw = content_width_of(widths, &cc, c);
        let lines = wrap_cell(row[c].as_str(), cw, cc.wrap_word);
        assert(views(row@)[c as int] == row@[c as int]@);
        wrapped.push(lines);
        c = c + 1;
    }
    let mut result: Vec<Row> = Vec::new();
    let mut l: usize = 0;
    while l < h
        invariant
            l <= h,
            wrapped@.len() == row@.len(),
            forall|k: int|
                0 <= k < row@.len() ==> views(#[trigger] wrapped@[k]@) == wrapped_at(
                    views(row@),
                    nats(widths@),
                    *config,
                    k,
                ),
            table_view(result@) == map_row_spec(views(row@), h as nat, nats(widths@), *config).take(
                l as int,
            ),
        decreases h - l,
    {
        let mut line_row: Row = Vec::new();
        let mut c: usize = 0;
        while c < wrapped.len()
            invariant
                c <= wrapped@.len() == row@.len(),
                forall|k: int|
                    0 <= k < row@.len() ==> views(#[trigger] wrapped@[k]@) == wrapped_at(
                        views(row@),
                        nats(widths@),
                        *config,
                        k,
                    ),
                line_row@.len() == c,
                forall|k: int|
                    0 <= k < c ==> (#[trigger] line_row@[k])@ == line_or_empty(
                        wrapped_at(views(row@), nats(widths@), *config, k),
                        l as int,
                    ),
            decreases wrapped@.len() - c,
        {
            let lines = &wrapped[c];
            let cell = if l < lines.len() {
                assert(views(lines@)[l as int] == lines@[l as int]@);
                lines[l].clone()
            } else {
                String::new()
            };
            assert(views(wrapped@[c as int]@) == views(lines@));
            line_row.push(cell);
            c = c + 1;
        }
        let ghost before = table_view(result@);
        proof {
            assert(views(line_row@) =~= map_row_spec(views(row@), h as nat, nats(widths@), *config)[l as int]);
        }
        result.push(line_row);
        assert(table_view(result@) =~= before.push(views(line_row@)));
        assert(table_view(result@) =~= map_row_spec(views(row@), h as nat, nats(widths@), *config).take(
            l + 1,
        ));
        l = l + 1;
    }
    assert(map_row_spec(views(row@), h as nat, nats(widths@), *config).take(h as int)
        =~= map_row_spec(views(row@), h as nat, nats(widths@), *config));
    result
}

/// Each row split into as many lines of cells as `row_heights` says (1 past its end): each
/// cell's wrapped lines top-down, empty lines below them.
pub fn map_data_using_row_heights(rows: &[Row], row_heights: &[usize], config: &TableConfig) -> (res:
    Vec<Vec<Row>>)
    requires
        rows_fit_first(table_view(rows@)),
    ensures
        groups_view(res@) == mapped_spec(table_view(rows@), nats(row_heights@), *config),
{
    let column_widths = calculate_output_column_widths(rows, config);
    let mut result: Vec<Vec<Row>> = Vec::new();
    let mut i: usize = 0;
    while i < rows.len()
        invariant
            i <= rows.len(),
            nats(column_widths@) == output_widths_spec(table_view(rows@), *config),
            groups_view(result@) == mapped_spec(
                table_view(rows@),
                nats(row_heights@),
                *config,
            ).take(i as int),
        decreases rows.len() - i,
    {
        let h: usize = if i < row_heights.len() {
            row_heights[i]
        } else {
            1
        };
        let group = map_row(&rows[i], h, &column_widths, config);
        assert(table_view(rows@)[i as int] == views(rows@[i as int]@));
        let ghost before = groups_view(result@);
        let ghost g = table_view(group@);
        result.push(group);
        assert(groups_view(result@) =~= before.push(g));
        assert(groups_view(result@) =~= mapped_spec(
            table_view(rows@),
            nats(row_heights@),
            *config,
        ).take(i + 1));
        i = i + 1;
    }
    assert(mapped_spec(table_view(rows@), nats(row_heights@), *config).take(i as int)
        =~= mapped_spec(table_view(rows@), nats(row_heights@), *config));
    result
}

} // verus!
