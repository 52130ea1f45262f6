use crate::pipeline::calculator::{
    column_config_at, column_config_of, content_width, height_at, line_or_empty, nats, pads,
    width_at,
};
use crate::text::{concat3, owned, spaces, spaces_string, views};
use crate::types::{ColumnConfig, Row, TableConfig, VerticalAlignment};
use crate::utils::ansi::{
    calculate_display_width, display_width, justify_ok, pad_ansi_spec, pad_ansi_string, sat_add,
    truncate_ansi_spec, truncate_ansi_string,
};
use crate::utils::formatting::table_view;
use vstd::prelude::*;

verus! {

/// A cell cut to its column's truncation width, when one is set.
pub open spec fn truncate_cell_spec(cell: Seq<char>, c: ColumnConfig) -> Seq<char> {
    if c.truncate > 0 {
        truncate_ansi_spec(cell, c.truncate as nat)
    } else {
        cell
    }
}

/// A cell placed in the content width of a column drawn `total` wide; unchanged for width 0.
pub open spec fn align_cell_spec(cell: Seq<char>, c: ColumnConfig, total: nat) -> Seq<char> {
    if total > 0 {
        pad_ansi_spec(cell, content_width(total, c), c.alignment)
    } else {
        cell
    }
}

/// Whether a cell can be placed in a column drawn `total` wide (see `justify_ok`).
pub open spec fn align_ok(cell: Seq<char>, c: ColumnConfig, total: nat) -> bool {
    total > 0 ==> justify_ok(cell, content_width(total, c), c.alignment)
}

/// A cell with its column's padding on both sides.
pub open spec fn pad_cell_spec(cell: Seq<char>, c: ColumnConfig) -> Seq<char> {
    spaces(c.padding_left as nat) + cell + spaces(c.padding_right as nat)
}

/// A cell with its column's padding, then filled with spaces up to `total` columns (sums held
/// at `usize::MAX`).
pub open spec fn pad_cell_width_spec(cell: Seq<char>, c: ColumnConfig, total: nat) -> Seq<char> {
    let current = sat_add(sat_add(c.padding_left as nat, display_width(cell)), c.padding_right as nat);
    let extra = if total > current {
        (total - current) as nat
    } else {
        0
    };
    pad_cell_spec(cell, c) + spaces(extra)
}

/// Every cell of the table, rewritten cell by cell by `f` (which gets the column index).
pub open spec fn cells_map(t: Seq<Seq<Seq<char>>>, f: spec_fn(Seq<char>, int) -> Seq<char>) -> Seq<
    Seq<Seq<char>>,
> {
    Seq::new(t.len(), |i: int| Seq::new(t[i].len(), |c: int| f(t[i][c], c)))
}

/// Each cell cut to its column's truncation width.
pub open spec fn truncate_table_spec(t: Seq<Seq<Seq<char>>>, config: TableConfig) -> Seq<
    Seq<Seq<char>>,
> {
    cells_map(t, |cell: Seq<char>, c: int| truncate_cell_spec(cell, column_config_at(config, c)))
}

/// Each cell placed in its column's given width.
pub open spec fn align_table_spec(t: Seq<Seq<Seq<char>>>, config: TableConfig) -> Seq<
    Seq<Seq<char>>,
> {
    cells_map(
        t,
        |cell: Seq<char>, c: int|
            align_cell_spec(cell, column_config_at(config, c), column_config_at(config, c).width as nat),
    )
}

/// Each cell placed in its column's drawn width.
pub open spec fn align_widths_spec(t: Seq<Seq<Seq<char>>>, config: TableConfig, widths: Seq<nat>) -> Seq<
    Seq<Seq<char>>,
> {
    cells_map(
        t,
        |cell: Seq<char>, c: int| align_cell_spec(cell, column_config_at(config, c), width_at(widths, c)),
    )
}

/// Each cell with its column's padding.
pub open spec fn pad_table_spec(t: Seq<Seq<Seq<char>>>, config: TableConfig) -> Seq<Seq<Seq<char>>> {
    cells_map(t, |cell: Seq<char>, c: int| pad_cell_spec(cell, column_config_at(config, c)))
}

/// Each cell with its column's padding, filled up to the column's drawn width.
pub open spec fn pad_widths_spec(t: Seq<Seq<Seq<char>>>, config: TableConfig, widths: Seq<nat>) -> Seq<
    Seq<Seq<char>>,
> {
    cells_map(
        t,
        |cell: Seq<char>, c: int| pad_cell_width_spec(cell, column_config_at(config, c), width_at(widths, c)),
    )
}

/// Whether every cell can be placed in its column's given width.
pub open spec fn align_table_ok(t: Seq<Seq<Seq<char>>>, config: TableConfig) -> bool {
    forall|i: int, c: int|
        0 <= i < t.len() && 0 <= c < t[i].len() ==> align_ok(
            #[trigger] t[i][c],
            column_config_at(config, c),
            column_config_at(config, c).width as nat,
        )
}

/// Whether every cell can be placed in its column's drawn width.
pub open spec fn align_widths_ok(t: Seq<Seq<Seq<char>>>, config: TableConfig, widths: Seq<nat>) -> bool {
    forall|i: int, c: int|
        0 <= i < t.len() && 0 <= c < t[i].len() ==> align_ok(
            #[trigger] t[i][c],
            column_config_at(config, c),
            width_at(widths, c),
        )
}

/// A cell placed in its column's given width, when one is set.
pub fn align_cell(cell: &str, config: &ColumnConfig) -> (res: String)
    requires
        align_ok(cell@, *config, config.width as nat),
    ensures
        res@ == align_cell_spec(cell@, *config, config.width as nat),
{
    align_cell_with_width(cell, config, config.width)
}

/// A cell placed in the content width of a column drawn `total_width` wide.
pub fn align_cell_with_width(cell: &str, config: &ColumnConfig, total_width: usize) -> (res: String)
    requires
        align_ok(cell@, *config, total_width as nat),
    ensures
        res@ == align_cell_spec(cell@, *config, total_width as nat),
{
    if total_width > 0 {
        let content_width = total_width.saturating_sub(
            config.padding_left.saturating_add(config.padding_right),
        );
        let padded = pad_ansi_string(cell, content_width, config.alignment);
        padded.content
    } else {
        owned(cell)
    }
}

/// A cell with its column's padding on both sides.
pub fn pad_cell(cell: &str, config: &ColumnConfig) -> (res: String)
    ensures
        res@ == pad_cell_spec(cell@, *config),
{
    let left = spaces_string(config.padding_left);
    let right = spaces_string(config.padding_right);
    concat3(left.as_str(), cell, right.as_str())
}

/// A cell with its column's padding, filled with spaces up to `total_width` columns.
pub fn pad_cell_with_width(cell: &str, config: &ColumnConfig, total_width: usize) -> (res: String)
    ensures
        res@ == pad_cell_width_spec(cell@, *config, total_width as nat),
{
    let padded = pad_cell(cell, config);
    let current = config.padding_left.saturating_add(calculate_display_width(cell)).saturating_add(
        config.padding_right,
    );
    let extra: usize = if total_width > current {
        total_width - current
    } else {
        0
    };
    crate::text::concat2(padded.as_str(), spaces_string(extra).as_str())
}

/// A cell cut to its column's truncation width, when one is set.
pub fn truncate_cell(cell: &str, config: &ColumnConfig) -> (res: String)
    ensures
        res@ == truncate_cell_spec(cell@, *config),
{
    if config.truncate > 0 {
        truncate_ansi_string(cell, config.truncate).content
    } else {
        owned(cell)
    }
}

/// Each cell cut to its column's truncation width.
pub fn truncate_table_data(rows: &[Row], config: &TableConfig) -> (res: Vec<Row>)
    ensures
        table_view(res@) == truncate_table_spec(table_view(rows@), *config),
{
    let ghost t = table_view(rows@);
    let mut result: Vec<Row> = Vec::new();
    let mut i: usize = 0;
    while i < rows.len()
        invariant
            i <= rows.len(),
            t == table_view(rows@),
            table_view(result@) == truncate_table_spec(t, *config).take(i as int),
        decreases rows.len() - i,
    {
        let row = &rows[i];
        assert(t[i as int] == views(row@));
        let mut out: Row = Vec::new();
        let mut c: usize = 0;
        while c < row.len()
            invariant
                c <= row.len(),
                i < rows.len(),
                row == &rows@[i as int],
                t == table_view(rows@),
                t[i as int] == views(row@),
                views(out@) == truncate_table_spec(t, *config)[i as int].take(c as int),
            decreases row.len() - c,
        {
            let cc = column_config_of(config, c);
            let cell = truncate_cell(row[c].as_str(), &cc);
            assert(views(row@)[c as int] == row@[c as int]@);
            let ghost before_out = views(out@);
            out.push(cell);
            assert(views(out@) =~= before_out.push(cell@));
            assert(views(out@) =~= truncate_table_spec(t, *config)[i as int].take(c + 1));
            c = c + 1;
        }
        assert(views(out@) =~= truncate_table_spec(t, *config)[i as int]);
        let ghost before = table_view(result@);
        let ghost o = views(out@);
        result.push(out);
        assert(table_view(result@) =~= before.push(o));
        assert(table_view(result@) =~= truncate_table_spec(t, *config).take(i + 1));
        i = i + 1;
    }
    assert(truncate_table_spec(t, *config).take(i as int) =~= truncate_table_spec(t, *config));
    result
}

/// Each cell placed in its column's given width (see `align_cell`).
pub fn align_table_data(rows: &[Row], config: &TableConfig) -> (res: Vec<Row>)
    requires
        align_table_ok(table_view(rows@), *config),
    ensures
        table_view(res@) == align_table_spec(table_view(rows@), *config),
{
    let ghost t = table_view(rows@);
    let mut result: Vec<Row> = Vec::new();
    let mut i: usize = 0;
    while i < rows.len()
        invariant
            i <= rows.len(),
            t == table_view(rows@),
            align_table_ok(t, *config),
            table_view(result@) == align_table_spec(t, *config).take(i as int),
        decreases rows.len() - i,
    {
        let row = &rows[i];
        assert(t[i as int] == views(row@));
        let mut out: Row = Vec::new();
        let mut c: usize = 0;
        while c < row.len()
            invariant
                c <= row.len(),
                i < rows.len(),
                row == &rows@[i as int],
                t == table_view(rows@),
                align_table_ok(t, *config),
                t[i as int] == views(row@),
                views(out@) == align_table_spec(t, *config)[i as int].take(c as int),
            decreases row.len() - c,
        {
            let cc = column_config_of(config, c);
            assert(views(row@)[c as int] == row@[c as int]@);
            assert(t[i as int][c as int] == row@[c as int]@);
            let cell = align_cell(row[c].as_str(), &cc);
            let ghost before_out = views(out@);
            out.push(cell);
            assert(views(out@) =~= before_out.push(cell@));
            assert(views(out@) =~= align_table_spec(t, *config)[i as int].take(c + 1));
            c = c + 1;
        }
        assert(views(out@) =~= align_table_spec(t, *config)[i as int]);
        let ghost before = table_view(result@);
        let ghost o = views(out@);
        result.push(out);
        assert(table_view(result@) =~= before.push(o));
        assert(table_view(result@) =~= align_table_spec(t, *config).take(i + 1));
        i = i + 1;
    }
    assert(align_table_spec(t, *config).take(i as int) =~= align_table_spec(t, *config));
    result
}

/// Each cell placed in the content width of its column, drawn as wide as `column_widths`
/// says (0 past its end).
pub fn align_table_data_with_widths(rows: &[Row], config: &TableConfig, column_widths: &[usize]) -> (res:
    Vec<Row>)
    requires
        align_widths_ok(table_view(rows@), *config, nats(column_widths@)),
    ensures
        table_view(res@) == align_widths_spec(table_view(rows@), *config, nats(column_widths@)),
{
    let ghost t = table_view(rows@);
    let ghost w = nats(column_widths@);
    let mut result: Vec<Row> = Vec::new();
    let mut i: usize = 0;
    while i < rows.len()
        invariant
            i <= rows.len(),
            t == table_view(rows@),
            w == nats(column_widths@),
            align_widths_ok(t, *config, w),
            table_view(result@) == align_widths_spec(t, *config, w).take(i as int),
        decreases rows.len() - i,
    {
        let row = &rows[i];
        assert(t[i as int] == views(row@));
        let mut out: Row = Vec::new();
        let mut c: usize = 0;
        while c < row.len()
            invariant
                c <= row.len(),
                i < rows.len(),
                row == &rows@[i as int],
                t == table_view(rows@),
                w == nats(column_widths@),
                align_widths_ok(t, *config, w),
                t[i as int] == views(row@),
                views(out@) == align_widths_spec(t, *config, w)[i as int].take(c as int),
            decreases row.len() - c,
        {
            let cc = column_config_of(config, c);
            let total: usize = if c < column_widths.len() {
                column_widths[c]
            } else {
                0
            };
            assert(total == width_at(w, c as int));
            assert(views(row@)[c as int] == row@[c as int]@);
            assert(t[i as int][c as int] == row@[c as int]@);
            let cell = align_cell_with_width(row[c].as_str(), &cc, total);
            let ghost before_out = views(out@);
            out.push(cell);
            assert(views(out@) =~= before_out.push(cell@));
            assert(views(out@) =~= align_widths_spec(t, *config, w)[i as int].take(c + 1));
            c = c + 1;
        }
        assert(views(out@) =~= align_widths_spec(t, *config, w)[i as int]);
        let ghost before = table_view(result@);
        let ghost o = views(out@);
        result.push(out);
        assert(table_view(result@) =~= before.push(o));
        assert(table_view(result@) =~= align_widths_spec(t, *config, w).take(i + 1));
        i = i + 1;
    }
    assert(align_widths_spec(t, *config, w).take(i as int) =~= align_widths_spec(t, *config, w));
    result
}

/// Each cell with its column's padding on both sides.
pub fn pad_table_data(rows: &[Row], config: &TableConfig) -> (res: Vec<Row>)
    ensures
        table_view(res@) == pad_table_spec(table_view(rows@), *config),
{
    let ghost t = table_view(rows@);
    let mut result: Vec<Row> = Vec::new();
    let mut i: usize = 0;
    while i < rows.len()
        invariant
            i <= rows.len(),
            t == table_view(rows@),
            table_view(result@) == pad_table_spec(t, *config).take(i as int),
        decreases rows.len() - i,
    {
        let row = &rows[i];
        assert(t[i as int] == views(row@));
        let mut out: Row = Vec::new();
        let mut c: usize = 0;
        while c < row.len()
            invariant
                c <= row.len(),
                i < rows.len(),
                row == &rows@[i as int],
                t == table_view(rows@),
                t[i as int] == views(row@),
                views(out@) == pad_table_spec(t, *config)[i as int].take(c as int),
            decreases row.len() - c,
        {
            let cc = column_config_of(config, c);
            assert(views(row@)[c as int] == row@[c as int]@);
            let cell = pad_cell(row[c].as_str(), &cc);
            let ghost before_out = views(out@);
            out.push(cell);
            assert(views(out@) =~= before_out.push(cell@));
            assert(views(out@) =~= pad_table_spec(t, *config)[i as int].take(c + 1));
            c = c + 1;
        }
        assert(views(out@) =~= pad_table_spec(t, *config)[i as int]);
        let ghost before = table_view(result@);
        let ghost o = views(out@);
        result.push(out);
        assert(table_view(result@) =~= before.push(o));
        assert(table_view(result@) =~= pad_table_spec(t, *config).take(i + 1));
        i = i + 1;
    }
    assert(pad_table_spec(t, *config).take(i as int) =~= pad_table_spec(t, *config));
    result
}

/// Each cell with its column's padding, filled with spaces up to the column's drawn width.
pub fn pad_table_data_with_widths(rows: &[Row], config: &TableConfig, column_widths: &[usize]) -> (res:
    Vec<Row>)
    ensures
        table_view(res@) == pad_widths_spec(table_view(rows@), *config, nats(column_widths@)),
{
    let ghost t = table_view(rows@);
    let ghost w = nats(column_widths@);
    let mut result: Vec<Row> = Vec::new();
    let mut i: usize = 0;
    while i < rows.len()
        invariant
            i <= rows.len(),
            t == table_view(rows@),
            w == nats(column_widths@),
            table_view(result@) == pad_widths_spec(t, *config, w).take(i as int),
        decreases rows.len() - i,
    {
        let row = &rows[i];
        assert(t[i as int] == views(row@));
        let mut out: Row = Vec::new();
        let mut c: usize = 0;
        while c < row.len()
            invariant
                c <= row.len(),
                i < rows.len(),
                row == &rows@[i as int],
                t == table_view(rows@),
                w == nats(column_widths@),
                t[i as int] == views(row@),
                views(out@) == pad_widths_spec(t, *config, w)[i as int].take(c as int),
            decreases row.len() - c,
        {
            let cc = column_config_of(config, c);
            let total: usize = if c < column_widths.len() {
                column_widths[c]
            } else {
                0
            };
            assert(total == width_at(w, c as int));
            assert(views(row@)[c as int] == row@[c as int]@);
            let cell = pad_cell_with_width(row[c].as_str(), &cc, total);
            let ghost before_out = views(out@);
            out.push(cell);
            assert(views(out@) =~= before_out.push(cell@));
            assert(views(out@) =~= pad_widths_spec(t, *config, w)[i as int].take(c + 1));
            c = c + 1;
        }
        assert(views(out@) =~= pad_widths_spec(t, *config, w)[i as int]);
        let ghost before = table_view(result@);
        let ghost o = views(out@);
        result.push(out);
        assert(table_view(result@) =~= before.push(o));
        assert(table_view(result@) =~= pad_widths_spec(t, *config, w).take(i + 1));
        i = i + 1;
    }
    assert(pad_widths_spec(t, *config, w).take(i as int) =~= pad_widths_spec(t, *config, w));
    result
}

/// `n` empty lines.
pub open spec fn empty_lines(n: nat) -> Seq<Seq<char>> {
    Seq::new(n, |i: int| Seq::<char>::empty())
}

/// A column's lines placed in `target` lines: unchanged when they already fill it, else
/// empty lines added below (top), above (bottom) or split around them (middle, the smaller
/// half above).
pub open spec fn align_vertically_spec(data: Seq<Seq<char>>, target: nat, a: VerticalAlignment) -> Seq<
    Seq<char>,
> {
    if data.len() >= target {
        data
    } else {
        let e = (target - data.len()) as nat;
        match a {
            VerticalAlignment::Top => data + empty_lines(e),
            VerticalAlignment::Bottom => empty_lines(e) + data,
            VerticalAlignment::Middle => empty_lines(e / 2) + data + empty_lines((e - e / 2) as nat),
        }
    }
}

/// `n` empty strings appended to `v`.
fn push_empty_lines(v: &mut Vec<String>, n: usize)
    ensures
        views(final(v)@) == views(old(v)@) + empty_lines(n as nat),
{
    let mut k: usize = 0;
    while k < n
        invariant
            k <= n,
            views(v@) == views(old(v)@) + empty_lines(k as nat),
        decreases n - k,
    {
        let ghost before = views(v@);
        v.push(String::new());
        assert(views(v@) =~= before.push(Seq::<char>::empty()));
        assert(views(v@) =~= views(old(v)@) + empty_lines((k + 1) as nat));
        k = k + 1;
    }
}

/// The strings of `data` appended to `v`.
fn push_all(v: &mut Vec<String>, data: &[String])
    ensures
        views(final(v)@) == views(old(v)@) + views(data@),
{
    let mut k: usize = 0;
    while k < data.len()
        invariant
            k <= data.len(),
            views(v@) == views(old(v)@) + views(data@).take(k as int),
        decreases data.len() - k,
    {
        let ghost before = views(v@);
        v.push(owned(data[k].as_str()));
        assert(views(v@) =~= before.push(data@[k as int]@));
        assert(views(v@) =~= views(old(v)@) + views(data@).take(k + 1));
        k = k + 1;
    }
    assert(views(data@).take(k as int) =~= views(data@));
}

/// A column's lines placed in `target_height` lines (see `align_vertically_spec`).
pub fn align_column_vertically(column_data: &[String], target_height: usize, alignment: VerticalAlignment) -> (res:
    Vec<String>)
    ensures
        views(res@) == align_vertically_spec(views(column_data@), target_height as nat, alignment),
{
    let mut result: Vec<String> = Vec::new();
    assert(views(result@) =~= Seq::<Seq<char>>::empty());
    let actual_height = column_data.len();
    if actual_height >= target_height {
        push_all(&mut result, column_data);
        return result;
    }
    let empty: usize = target_height - actual_height;
    match alignment {
        VerticalAlignment::Top => {
            push_all(&mut result, column_data);
            push_empty_lines(&mut result, empty);
        },
        VerticalAlignment::Bottom => {
            push_empty_lines(&mut result, empty);
            push_all(&mut result, column_data);
        },
        VerticalAlignment::Middle => {
            let top: usize = empty / 2;
            push_empty_lines(&mut result, top);
            push_all(&mut result, column_data);
            push_empty_lines(&mut result, empty - top);
        },
    }
    result
}

/// Cell `c` of `row`, or the empty string past its end.
pub open spec fn cell_or_empty(row: Seq<Seq<char>>, c: int) -> Seq<char> {
    if 0 <= c < row.len() {
        row[c]
    } else {
        Seq::empty()
    }
}

/// The number of columns of a group of lines: that of its first line.
pub open spec fn group_columns(g: Seq<Seq<Seq<char>>>) -> nat {
    if g.len() > 0 {
        g[0].len()
    } else {
        0
    }
}

/// A group of lines of cells placed in `target` lines, each column aligned vertically on
/// its own.
pub open spec fn valign_group(g: Seq<Seq<Seq<char>>>, target: nat, config: TableConfig) -> Seq<
    Seq<Seq<char>>,
> {
    Seq::new(
        target,
        |l: int|
            Seq::new(
                group_columns(g),
                |c: int|
                    line_or_empty(
                        align_vertically_spec(
                            Seq::new(g.len(), |r: int| cell_or_empty(g[r], c)),
                            target,
                            column_config_at(config, c).vertical_alignment,
                        ),
                        l,
                    ),
            ),
    )
}

/// Each group placed in its height, the groups' lines one after another.
pub open spec fn valign_spec(groups: Seq<Seq<Seq<Seq<char>>>>, heights: Seq<nat>, config: TableConfig) -> Seq<
    Seq<Seq<char>>,
> {
    Seq::new(groups.len(), |i: int| valign_group(groups[i], height_at(heights, i), config)).flatten()
}

/// One group placed in `target` lines.
fn valign_one(g: &Vec<Row>, target: usize, config: &TableConfig) -> (res: Vec<Row>)
    ensures
        table_view(res@) == valign_group(table_view(g@), target as nat, *config),
{
    let ghost tg = table_view(g@);
    let column_count: usize = if g.len() > 0 {
        g[0].len()
    } else {
        0
    };
    let mut columns: Vec<Vec<String>> = Vec::new();
    let mut c: usize = 0;
    while c < column_count
        invariant
            c <= column_count == group_columns(tg),
            tg == table_view(g@),
            columns@.len() == c,
            forall|k: int|
                0 <= k < c ==> views(#[trigger] columns@[k]@) == align_vertically_spec(
                    Seq::new(tg.len(), |r: int| cell_or_empty(tg[r], k)),
                    target as nat,
                    column_config_at(*config, k).vertical_alignment,
                ),
        decreases column_count - c,
    {
        let mut data: Vec<String> = Vec::new();
        let mut r: usize = 0;
        while r < g.len()
            invariant
                r <= g.len(),
                tg == table_view(g@),
                views(data@) == Seq::new(tg.len(), |q: int| cell_or_empty(tg[q], c as int)).take(
                    r as int,
                ),
            decreases g.len() - r,
        {
            let row = &g[r];
            assert(tg[r as int] == views(row@));
            let cell = if c < row.len() {
                assert(views(row@)[c as int] == row@[c as int]@);
                owned(row[c].as_str())
            } else {
                String::new()
            };
            let ghost before = views(data@);
            data.push(cell);
            assert(views(data@) =~= before.push(cell@));
            assert(views(data@) =~= Seq::new(tg.len(), |q: int| cell_or_empty(tg[q], c as int)).take(
                r + 1,
            ));
            r = r + 1;
        }
        assert(views(data@) =~= Seq::new(tg.len(), |q: int| cell_or_empty(tg[q], c as int)));
        let cc = column_config_of(config, c);
        let aligned = align_column_vertically(data.as_slice(), target, cc.vertical_alignment);
        columns.push(aligned);
        c = c + 1;
    }
    let mut result: Vec<Row> = Vec::new();
    let mut l: usize = 0;
    while l < target
        invariant
            l <= target,
            columns@.len() == column_count == group_columns(tg),
            tg == table_view(g@),
            forall|k: int|
                0 <= k < column_count ==> views(#[trigger] columns@[k]@) == align_vertically_spec(
                    Seq::new(tg.len(), |r: int| cell_or_empty(tg[r], k)),
                    target as nat,
                    column_config_at(*config, k).vertical_alignment,
                ),
            table_view(result@) == valign_group(tg, target as nat, *config).take(l as int),
        decreases target - l,
    {
        let mut line: Row = Vec::new();
        let mut c: usize = 0;
        while c < column_count
            invariant
                c <= column_count == columns@.len(),
                column_count == group_columns(tg),
                forall|k: int|
                    0 <= k < column_count ==> views(#[trigger] columns@[k]@)
                        == align_vertically_spec(
                        Seq::new(tg.len(), |r: int| cell_or_empty(tg[r], k)),
                        target as nat,
                        column_config_at(*config, k).vertical_alignment,
                    ),
                views(line@) == valign_group(tg, target as nat, *config)[l as int].take(c as int),
                l < target,
            decreases column_count - c,
        {
            let col = &columns[c];
            assert(views(columns@[c as int]@) == views(col@));
            let cell = if l < col.len() {
                assert(views(col@)[l as int] == col@[l as int]@);
                owned(col[l].as_str())
            } else {
                String::new()
            };
            let ghost before = views(line@);
            line.push(cell);
            assert(views(line@) =~= before.push(cell@));
            assert(views(line@) =~= valign_group(tg, target as nat, *config)[l as int].take(c + 1));
            c = c + 1;
        }
        assert(views(line@) =~= valign_group(tg, target as nat, *config)[l as int]);
        let ghost before = table_view(result@);
        let ghost lv = views(line@);
        result.push(line);
        assert(table_view(result@) =~= before.push(lv));
        assert(table_view(result@) =~= valign_group(tg, target as nat, *config).take(l + 1));
        l = l + 1;
    }
    assert(valign_group(tg, target as nat, *config).take(l as int) =~= valign_group(
        tg,
        target as nat,
        *config,
    ));
    result
}

/// Each group of lines placed in its height (1 past the given heights), each column aligned
/// vertically by its settings; the groups' lines one after another.
pub fn apply_vertical_alignment(rows: &[Vec<Row>], heights: &[usize], config: &TableConfig) -> (res:
    Vec<Row>)
    ensures
        table_view(res@) == valign_spec(
            rows@.map_values(|g: Vec<Row>| table_view(g@)),
            nats(heights@),
            *config,
        ),
{
    let ghost gs = rows@.map_values(|g: Vec<Row>| table_view(g@));
    let ghost parts = Seq::new(
        gs.len(),
        |i: int| valign_group(gs[i], height_at(nats(heights@), i), *config),
    );
    let mut result: Vec<Row> = Vec::new();
    let mut i: usize = 0;
    while i < rows.len()
        invariant
            i <= rows.len(),
            gs == rows@.map_values(|g: Vec<Row>| table_view(g@)),
            parts == Seq::new(
                gs.len(),
                |k: int| valign_group(gs[k], height_at(nats(heights@), k), *config),
            ),
            table_view(result@) == parts.take(i as int).flatten(),
        decreases rows.len() - i,
    {
        let target: usize = if i < heights.len() {
            heights[i]
        } else {
            1
        };
        let aligned = valign_one(&rows[i], target, config);
        assert(gs[i as int] == table_view(rows@[i as int]@));
        let ghost before = table_view(result@);
        let mut k: usize = 0;
        while k < aligned.len()
            invariant
                k <= aligned.len(),
                table_view(result@) == before + table_view(aligned@).take(k as int),
            decreases aligned.len() - k,
        {
            let ghost b2 = table_view(result@);
            let line = crate::text::copy_strings(&aligned[k]);
            result.push(line);
            assert(table_view(result@) =~= b2.push(views(aligned@[k as int]@)));
            assert(table_view(result@) =~= before + table_view(aligned@).take(k + 1));
            k = k + 1;
        }
        assert(table_view(aligned@).take(k as int) =~= table_view(aligned@));
        proof {
            assert(parts.take(i + 1) =~= parts.take(i as int).push(parts[i as int]));
            parts.take(i as int).lemma_flatten_push(parts[i as int]);
        }
        i = i + 1;
    }
    assert(parts.take(i as int) =~= parts);
    result
}

} // verus!
