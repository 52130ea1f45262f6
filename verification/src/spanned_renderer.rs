use crate::alignment::{align_text, align_text_spec, is_default_column, ColumnConfig};
use crate::border::BorderChars;
use crate::padding::{apply_padding, apply_padding_spec};
use crate::renderer::RenderOptions;
use crate::spanning::{
    calculate_spanned_width, should_render_cell, spanned_width_spec, CellSpan, SpannedTableData,
};
use crate::table_data::{
    given_config, plain_alignment, plain_content_width, plain_padding, plain_total_width, plain_truncate,
    widths_for,
};
use crate::text::{char_run, concat_all, push_char, push_str, repeat_char};
use crate::truncation::{truncate_text, truncate_text_ok, truncate_text_spec};
use crate::utils::ansi::byte_len;
use vstd::prelude::*;

verus! {

/// A grid cell as plain values: text, span, whether it is covered.
pub type GridCell = (Seq<char>, CellSpan, bool);

/// The widest one-column, uncovered cell (in bytes) in column `c` among the first `n` rows.
pub open spec fn span_auto(g: Seq<Seq<GridCell>>, c: int, n: int) -> nat
    decreases n,
{
    if n <= 0 {
        0
    } else {
        let rest = span_auto(g, c, n - 1);
        let cell = g[n - 1][c];
        let w = if !cell.2 && cell.1.col_span == 1 {
            byte_len(cell.0)
        } else {
            0
        };
        if w > rest {
            w
        } else {
            rest
        }
    }
}

/// The content widths the cells give each column.
pub open spec fn span_autos(g: Seq<Seq<GridCell>>, rows: nat, cols: nat) -> Seq<nat> {
    Seq::new(cols, |c: int| span_auto(g, c, rows as int))
}

/// The drawn widths of the columns.
pub open spec fn span_widths(g: Seq<Seq<GridCell>>, rows: nat, cols: nat, configs: Seq<ColumnConfig>) -> Seq<nat> {
    widths_for(configs, span_autos(g, rows, cols))
}

/// Numbers as `usize` values.
pub open spec fn as_usizes(w: Seq<nat>) -> Seq<usize> {
    w.map_values(|x: nat| x as usize)
}

/// The number of columns a cell takes in a line: its span when it is drawn and spans several
/// columns, else one.
pub open spec fn line_span(cell: GridCell) -> nat {
    if !cell.2 && cell.1.col_span > 1 {
        cell.1.col_span as nat
    } else {
        1
    }
}

/// The width of a run of `span` columns from `col`: the column's width, or for several
/// columns the spanned width.
pub open spec fn run_width(w: Seq<nat>, col: nat, span: nat) -> nat {
    if span > 1 {
        spanned_width_spec(as_usizes(w), col, span, 1) as nat
    } else {
        w[col as int]
    }
}

/// A top or bottom line from column `col` on, after row `r`'s spans: a run for each cell
/// drawn (as wide as the columns it spans) with `junction` between runs.
pub open spec fn edge_from(g: Seq<Seq<GridCell>>, r: int, w: Seq<nat>, col: nat, h: char, junction: char) -> Seq<
    char,
>
    decreases w.len() - col,
{
    if col >= w.len() {
        Seq::empty()
    } else {
        let span = line_span(g[r][col as int]);
        let next = col + span;
        char_run(h, run_width(w, col, span)) + if next < w.len() {
            seq![junction] + edge_from(g, r, w, next, h, junction)
        } else {
            Seq::empty()
        }
    }
}

/// The span a cell gives the line between two rows: its span when drawn, else one.
pub open spec fn sep_span(cell: GridCell) -> nat {
    if !cell.2 {
        cell.1.col_span as nat
    } else {
        1
    }
}

/// The line between rows `r` and `r + 1` from column `col` on: a run as wide as the larger of
/// the two rows' spans there, `┼` between runs.
pub open spec fn sep_from(g: Seq<Seq<GridCell>>, r: int, w: Seq<nat>, col: nat, h: char) -> Seq<char>
    decreases w.len() - col,
{
    if col >= w.len() {
        Seq::empty()
    } else {
        let a = sep_span(g[r][col as int]);
        let b = sep_span(g[r + 1][col as int]);
        let span: nat = if a > b {
            a
        } else {
            b
        };
        if span == 0 {
            Seq::empty()
        } else {
            let next = col + span;
            char_run(h, run_width(w, col, span)) + if next < w.len() {
                seq!['┼'] + sep_from(g, r, w, next, h)
            } else {
                Seq::empty()
            }
        }
    }
}

/// The content width of column `i`: its given width, or its drawn width less its padding.
pub open spec fn span_content(configs: Seq<ColumnConfig>, w: Seq<nat>, i: int) -> nat {
    match given_config(configs, i) {
        Some(c) => match c.width {
            Some(x) => x as nat,
            None => (w[i] - (c.padding.left + c.padding.right)) as nat,
        },
        None => (w[i] - 2) as nat,
    }
}

/// The room of a cell spanning `span` columns from `col`: the content widths of the columns it
/// covers (up to the last one) and one for each border between them.
pub open spec fn span_room(configs: Seq<ColumnConfig>, w: Seq<nat>, col: int, end: int) -> nat
    decreases end - col,
{
    if end <= col {
        0
    } else {
        span_room(configs, w, col, end - 1) + span_content(configs, w, end - 1) + if end - 1 > col {
            1nat
        } else {
            0nat
        }
    }
}

/// The room of a drawn cell at `col` spanning `span` columns.
pub open spec fn cell_room(configs: Seq<ColumnConfig>, w: Seq<nat>, col: int, span: nat) -> nat {
    if span > 1 {
        let end = if col + span < w.len() {
            col + span
        } else {
            w.len() as int
        };
        span_room(configs, w, col, end)
    } else {
        span_content(configs, w, col)
    }
}

/// A drawn cell: cut by its column, placed in its room, padded.
pub open spec fn span_cell_text(configs: Seq<ColumnConfig>, w: Seq<nat>, col: int, cell: GridCell) -> Seq<char> {
    apply_padding_spec(
        align_text_spec(
            plain_truncate(configs, col, cell.0, true),
            cell_room(configs, w, col, cell.1.col_span as nat),
            plain_alignment(configs, col),
        ),
        plain_padding(configs, col),
    )
}

/// Row `r` from column `col` on: each drawn cell followed by `v` unless it reaches the last
/// column; covered cells give nothing.
pub open spec fn row_from(
    g: Seq<Seq<GridCell>>,
    r: int,
    cols: nat,
    w: Seq<nat>,
    configs: Seq<ColumnConfig>,
    v: char,
    col: nat,
) -> Seq<char>
    decreases cols - col,
{
    if col >= cols {
        Seq::empty()
    } else {
        let cell = g[r][col as int];
        if cell.2 {
            row_from(g, r, cols, w, configs, v, col + 1)
        } else if cell.1.col_span == 0 {
            Seq::empty()
        } else {
            let next: nat = col + cell.1.col_span as nat;
            span_cell_text(configs, w, col as int, cell) + if next < cols {
                seq![v] + row_from(g, r, cols, w, configs, v, next)
            } else {
                Seq::empty()
            }
        }
    }
}

/// Row `r` between vertical characters, followed (but the last) by a line between rows when
/// shown.
pub open spec fn row_block(
    g: Seq<Seq<GridCell>>,
    r: int,
    rows: nat,
    cols: nat,
    w: Seq<nat>,
    configs: Seq<ColumnConfig>,
    b: BorderChars,
    o: RenderOptions,
) -> Seq<char> {
    seq![b.vertical] + row_from(g, r, cols, w, configs, b.vertical, 0) + seq![b.vertical, '\n'] + if o.show_row_separators
        && r < rows - 1 {
        seq!['├'] + sep_from(g, r, w, 0, b.horizontal) + seq!['┤', '\n']
    } else {
        Seq::empty()
    }
}

/// What `render_spanned_table` gives: nothing for an empty grid; else the top line when
/// shown, each row (between vertical characters) followed (but the last) by a line between
/// rows when shown, and the bottom line when shown.
pub open spec fn spanned_table(
    g: Seq<Seq<GridCell>>,
    rows: nat,
    cols: nat,
    b: BorderChars,
    o: RenderOptions,
    configs: Seq<ColumnConfig>,
) -> Seq<char> {
    let w = span_widths(g, rows, cols, configs);
    if rows == 0 || cols == 0 {
        Seq::empty()
    } else {
        (if o.show_top_border {
            seq![b.top_left] + edge_from(g, 0, w, 0, b.horizontal, b.top_junction) + seq![b.top_right, '\n']
        } else {
            Seq::empty()
        }) + concat_all(Seq::new(rows, |r: int| row_block(g, r, rows, cols, w, configs, b, o)))
            + if o.show_bottom_border {
            seq![b.bottom_left] + edge_from(g, rows - 1, w, 0, b.horizontal, b.bottom_junction) + seq![
                b.bottom_right,
                '\n',
            ]
        } else {
            Seq::empty()
        }
    }
}

/// Whether a grid can be drawn with the settings: drawn cells span at least one column and
/// their spans, widths and rooms fit in `usize`, their text can be cut by their column, and
/// the given paddings add up.
pub open spec fn spanned_ok(g: Seq<Seq<GridCell>>, rows: nat, cols: nat, configs: Seq<ColumnConfig>) -> bool {
    let w = span_widths(g, rows, cols, configs);
    &&& forall|i: int| 0 <= i < configs.len() ==> #[trigger] configs[i].padding.left + configs[i].padding.right <= usize::MAX
    &&& forall|r: int, c: int|
        0 <= r < rows && 0 <= c < cols && !(#[trigger] g[r][c]).2 ==> {
            &&& g[r][c].1.col_span >= 1
            &&& c + g[r][c].1.col_span <= usize::MAX
            &&& spanned_width_spec(as_usizes(w), c as nat, g[r][c].1.col_span as nat, 1) <= usize::MAX
            &&& cell_room(configs, w, c, g[r][c].1.col_span as nat) <= usize::MAX
            &&& (c < configs.len() ==> truncate_text_ok(g[r][c].0, configs[c].truncation))
        }
}

/// Room sums over more columns are no smaller.
proof fn lemma_room_mono(configs: Seq<ColumnConfig>, w: Seq<nat>, col: int, end: int)
    ensures
        forall|j: int| col <= j <= end ==> #[trigger] span_room(configs, w, col, j) <= span_room(configs, w, col, end),
    decreases end - col,
{
    if end > col {
        lemma_room_mono(configs, w, col, end - 1);
    }
}

/// The settings of column `i`: its own, or the defaults past the given ones.
fn column_at(configs: &[ColumnConfig], i: usize) -> (res: ColumnConfig)
    ensures
        i < configs@.len() ==> res == configs@[i as int],
        i >= configs@.len() ==> is_default_column(res),
{
    if i < configs.len() {
        configs[i].duplicate()
    } else {
        ColumnConfig::default()
    }
}

/// The content width of column `i` (see `span_content`).
fn content_of(configs: &[ColumnConfig], widths: &Vec<usize>, i: usize) -> (res: usize)
    requires
        i < widths@.len(),
        forall|k: int| 0 <= k < configs@.len() ==> #[trigger] configs@[k].padding.left + configs@[k].padding.right <= usize::MAX,
        i < configs@.len() ==> widths@[i as int] >= configs@[i as int].padding.left + configs@[i as int].padding.right,
        i >= configs@.len() ==> widths@[i as int] >= 2,
    ensures
        res == span_content(configs@, widths@.map_values(|x: usize| x as nat), i as int),
{
    let cfg = column_at(configs, i);
    match cfg.width {
        Some(x) => x,
        None => widths[i] - (cfg.padding.left + cfg.padding.right),
    }
}

/// The auto widths of the columns (see `span_autos`).
fn spanned_autos(data: &SpannedTableData) -> (res: Vec<usize>)
    requires
        data.wf(),
    ensures
        res@.map_values(|x: usize| x as nat) == span_autos(data.grid(), data.rows as nat, data.cols as nat),
{
    let ghost g = data.grid();
    let mut autos: Vec<usize> = Vec::new();
    let mut c: usize = 0;
    while c < data.cols
        invariant
            data.wf(),
            g == data.grid(),
            c <= data.cols,
            autos@.len() == c,
            forall|k: int| 0 <= k < c ==> #[trigger] autos@[k] as nat == span_auto(g, k, data.rows as int),
        decreases data.cols - c,
    {
        let mut best: usize = 0;
        let mut r: usize = 0;
        while r < data.rows
            invariant
                data.wf(),
                g == data.grid(),
                c < data.cols,
                r <= data.rows,
                best as nat == span_auto(g, c as int, r as int),
            decreases data.rows - r,
        {
            let cell = data.get_cell(r, c).unwrap();
            if should_render_cell(cell) && cell.span.col_span == 1 {
                let b = cell.content.as_str().as_bytes().len();
                if b > best {
                    best = b;
                }
            }
            r = r + 1;
        }
        autos.push(best);
        c = c + 1;
    }
    assert(autos@.map_values(|x: usize| x as nat) =~= span_autos(g, data.rows as nat, data.cols as nat));
    autos
}

/// A top or bottom line's runs after row `r` (see `edge_from`).
fn edge_line(data: &SpannedTableData, r: usize, widths: &Vec<usize>, h: char, junction: char, configs: Ghost<Seq<ColumnConfig>>) -> (res: String)
    requires
        data.wf(),
        r < data.rows,
        widths@.len() == data.cols,
        widths@.map_values(|x: usize| x as nat) == span_widths(data.grid(), data.rows as nat, data.cols as nat, configs@),
        spanned_ok(data.grid(), data.rows as nat, data.cols as nat, configs@),
    ensures
        res@ == edge_from(data.grid(), r as int, widths@.map_values(|x: usize| x as nat), 0, h, junction),
{
    let ghost g = data.grid();
    let ghost w = widths@.map_values(|x: usize| x as nat);
    assert(as_usizes(w) =~= widths@);
    let mut out = String::new();
    let mut col: usize = 0;
    while col < widths.len()
        invariant
            data.wf(),
            g == data.grid(),
            r < data.rows,
            widths@.len() == data.cols,
            w == widths@.map_values(|x: usize| x as nat),
            as_usizes(w) == widths@,
            w == span_widths(g, data.rows as nat, data.cols as nat, configs@),
            spanned_ok(g, data.rows as nat, data.cols as nat, configs@),
            col <= widths@.len(),
            out@ + edge_from(g, r as int, w, col as nat, h, junction) == edge_from(g, r as int, w, 0, h, junction),
        decreases widths@.len() - col,
    {
        let cell = data.get_cell(r, col).unwrap();
        let ghost gc = g[r as int][col as int];
        let span: usize = if should_render_cell(cell) && cell.span.col_span > 1 {
            cell.span.col_span
        } else {
            1
        };
        assert(span as nat == line_span(gc));
        let width = if span > 1 {
            calculate_spanned_width(widths.as_slice(), col, span, 1)
        } else {
            widths[col]
        };
        assert(width as nat == run_width(w, col as nat, span as nat));
        let ghost before = out@;
        let run = repeat_char(h, width);
        push_str(&mut out, run.as_str());
        let next = col + span;
        if next < widths.len() {
            push_char(&mut out, junction);
        }
        let stop: usize = if next < widths.len() {
            next
        } else {
            widths.len()
        };
        assert(out@ + edge_from(g, r as int, w, stop as nat, h, junction) =~= before + edge_from(
            g,
            r as int,
            w,
            col as nat,
            h,
            junction,
        ));
        col = stop;
    }
    assert(out@ + Seq::<char>::empty() =~= out@);
    out
}

/// Drawn widths are at least their column's padding.
proof fn lemma_widths_cover_padding(g: Seq<Seq<GridCell>>, rows: nat, cols: nat, configs: Seq<ColumnConfig>)
    requires
        forall|i: int| 0 <= i < configs.len() ==> #[trigger] configs[i].padding.left + configs[i].padding.right <= usize::MAX,
    ensures
        forall|i: int|
            0 <= i < cols ==> (i < configs.len() ==> #[trigger] span_widths(g, rows, cols, configs)[i] >= configs[i].padding.left
                + configs[i].padding.right) && (i >= configs.len() ==> span_widths(g, rows, cols, configs)[i] >= 2),
{
}

/// The line between rows `r` and `r + 1` (see `sep_from`).
fn separator_line(data: &SpannedTableData, r: usize, widths: &Vec<usize>, h: char, configs: Ghost<Seq<ColumnConfig>>) -> (res: String)
    requires
        data.wf(),
        r + 1 < data.rows,
        widths@.len() == data.cols,
        widths@.map_values(|x: usize| x as nat) == span_widths(data.grid(), data.rows as nat, data.cols as nat, configs@),
        spanned_ok(data.grid(), data.rows as nat, data.cols as nat, configs@),
    ensures
        res@ == sep_from(data.grid(), r as int, widths@.map_values(|x: usize| x as nat), 0, h),
{
    let ghost g = data.grid();
    let ghost w = widths@.map_values(|x: usize| x as nat);
    assert(as_usizes(w) =~= widths@);
    let mut out = String::new();
    let mut col: usize = 0;
    while col < widths.len()
        invariant
            data.wf(),
            g == data.grid(),
            r + 1 < data.rows,
            widths@.len() == data.cols,
            w == widths@.map_values(|x: usize| x as nat),
            as_usizes(w) == widths@,
            w == span_widths(g, data.rows as nat, data.cols as nat, configs@),
            spanned_ok(g, data.rows as nat, data.cols as nat, configs@),
            col <= widths@.len(),
            out@ + sep_from(g, r as int, w, col as nat, h) == sep_from(g, r as int, w, 0, h),
        decreases widths@.len() - col,
    {
        let here = data.get_cell(r, col).unwrap();
        let below = data.get_cell(r + 1, col).unwrap();
        let a: usize = if should_render_cell(here) {
            here.span.col_span
        } else {
            1
        };
        let b: usize = if should_render_cell(below) {
            below.span.col_span
        } else {
            1
        };
        let span = if a > b {
            a
        } else {
            b
        };
        assert(a as nat == sep_span(g[r as int][col as int]));
        assert(b as nat == sep_span(g[r + 1][col as int]));
        let width = if span > 1 {
            calculate_spanned_width(widths.as_slice(), col, span, 1)
        } else {
            widths[col]
        };
        assert(width as nat == run_width(w, col as nat, span as nat));
        let ghost before = out@;
        let run = repeat_char(h, width);
        push_str(&mut out, run.as_str());
        let next = col + span;
        if next < widths.len() {
            push_char(&mut out, '┼');
        }
        let stop: usize = if next < widths.len() {
            next
        } else {
            widths.len()
        };
        assert(out@ + sep_from(g, r as int, w, stop as nat, h) =~= before + sep_from(g, r as int, w, col as nat, h));
        col = stop;
    }
    assert(out@ + Seq::<char>::empty() =~= out@);
    out
}

/// The room of a drawn cell (see `cell_room`).
fn room_of(configs: &[ColumnConfig], widths: &Vec<usize>, col: usize, span: usize, g: Ghost<Seq<Seq<GridCell>>>, rows: Ghost<nat>) -> (res: usize)
    requires
        col < widths@.len(),
        span >= 1,
        cell_room(configs@, widths@.map_values(|x: usize| x as nat), col as int, span as nat) <= usize::MAX,
        col + span <= usize::MAX,
        forall|k: int| 0 <= k < configs@.len() ==> #[trigger] configs@[k].padding.left + configs@[k].padding.right <= usize::MAX,
        forall|i: int|
            0 <= i < widths@.len() ==> (i < configs@.len() ==> #[trigger] widths@[i] >= configs@[i].padding.left
                + configs@[i].padding.right) && (i >= configs@.len() ==> widths@[i] >= 2),
    ensures
        res == cell_room(configs@, widths@.map_values(|x: usize| x as nat), col as int, span as nat),
{
    let ghost w = widths@.map_values(|x: usize| x as nat);
    if span == 1 {
        return content_of(configs, widths, col);
    }
    let end: usize = if col + span < widths.len() {
        col + span
    } else {
        widths.len()
    };
    proof {
        lemma_room_mono(configs@, w, col as int, end as int);
    }
    let mut total: usize = 0;
    let mut i: usize = col;
    while i < end
        invariant
            col <= i <= end <= widths@.len(),
            w == widths@.map_values(|x: usize| x as nat),
            total as nat == span_room(configs@, w, col as int, i as int),
            span_room(configs@, w, col as int, end as int) <= usize::MAX,
            forall|j: int| col <= j <= end ==> #[trigger] span_room(configs@, w, col as int, j) <= span_room(configs@, w, col as int, end as int),
            forall|k: int| 0 <= k < configs@.len() ==> #[trigger] configs@[k].padding.left + configs@[k].padding.right <= usize::MAX,
            forall|q: int|
                0 <= q < widths@.len() ==> (q < configs@.len() ==> #[trigger] widths@[q] >= configs@[q].padding.left
                    + configs@[q].padding.right) && (q >= configs@.len() ==> widths@[q] >= 2),
        decreases end - i,
    {
        assert(span_room(configs@, w, col as int, i + 1) <= usize::MAX);
        let cw = content_of(configs, widths, i);
        let sep: usize = if i > col {
            1
        } else {
            0
        };
        total = total + cw + sep;
        i = i + 1;
    }
    total
}

/// Row `r`'s cells (see `row_from`).
fn data_row(data: &SpannedTableData, r: usize, widths: &Vec<usize>, configs: &[ColumnConfig], v: char) -> (res: String)
    requires
        data.wf(),
        r < data.rows,
        widths@.len() == data.cols,
        widths@.map_values(|x: usize| x as nat) == span_widths(data.grid(), data.rows as nat, data.cols as nat, configs@),
        spanned_ok(data.grid(), data.rows as nat, data.cols as nat, configs@),
    ensures
        res@ == row_from(data.grid(), r as int, data.cols as nat, widths@.map_values(|x: usize| x as nat), configs@, v, 0),
{
    let ghost g = data.grid();
    let ghost w = widths@.map_values(|x: usize| x as nat);
    proof {
        lemma_widths_cover_padding(g, data.rows as nat, data.cols as nat, configs@);
        assert forall|i: int|
            0 <= i < widths@.len() implies (i < configs@.len() ==> #[trigger] widths@[i] >= configs@[i].padding.left
                + configs@[i].padding.right) && (i >= configs@.len() ==> widths@[i] >= 2) by {
            assert(w[i] == widths@[i] as nat);
        }
    }
    let mut out = String::new();
    let mut col: usize = 0;
    while col < data.cols
        invariant
            data.wf(),
            g == data.grid(),
            r < data.rows,
            widths@.len() == data.cols,
            w == widths@.map_values(|x: usize| x as nat),
            w == span_widths(g, data.rows as nat, data.cols as nat, configs@),
            spanned_ok(g, data.rows as nat, data.cols as nat, configs@),
            forall|i: int|
                0 <= i < widths@.len() ==> (i < configs@.len() ==> #[trigger] widths@[i] >= configs@[i].padding.left
                    + configs@[i].padding.right) && (i >= configs@.len() ==> widths@[i] >= 2),
            col <= data.cols,
            out@ + row_from(g, r as int, data.cols as nat, w, configs@, v, col as nat) == row_from(
                g,
                r as int,
                data.cols as nat,
                w,
                configs@,
                v,
                0,
            ),
        decreases data.cols - col,
    {
        let cell = data.get_cell(r, col).unwrap();
        let ghost gc = g[r as int][col as int];
        if !should_render_cell(cell) {
            col = col + 1;
            continue;
        }
        let span = cell.span.col_span;
        assert(!g[r as int][col as int].2);
        let room = room_of(configs, widths, col, span, Ghost(g), Ghost(data.rows as nat));
        let cfg = column_at(configs, col);
        if col >= configs.len() {
            assert(truncate_text_spec(cell.content@, cfg.truncation) == cell.content@);
        } else {
            assert(cfg.truncation == (crate::truncation::TruncationConfig {
                truncate_start: cfg.truncation.truncate_start && true,
                ..cfg.truncation
            }));
        }
        let cut = truncate_text(cell.content.as_str(), &cfg.truncation);
        let placed = align_text(cut.as_str(), room, cfg.alignment);
        let text = apply_padding(placed.as_str(), cfg.padding);
        assert(text@ == span_cell_text(configs@, w, col as int, gc));
        let ghost before = out@;
        push_str(&mut out, text.as_str());
        let next = col + span;
        if next < data.cols {
            push_char(&mut out, v);
        }
        let stop: usize = if next < data.cols {
            next
        } else {
            data.cols
        };
        assert(out@ + row_from(g, r as int, data.cols as nat, w, configs@, v, stop as nat) =~= before + row_from(
            g,
            r as int,
            data.cols as nat,
            w,
            configs@,
            v,
            col as nat,
        ));
        col = stop;
    }
    assert(out@ + Seq::<char>::empty() =~= out@);
    out
}

/// Row `r` and the line below it (see `row_block`).
fn row_block_text(
    data: &SpannedTableData,
    r: usize,
    widths: &Vec<usize>,
    configs: &[ColumnConfig],
    border: &BorderChars,
    options: &RenderOptions,
) -> (res: String)
    requires
        data.wf(),
        r < data.rows,
        widths@.len() == data.cols,
        widths@.map_values(|x: usize| x as nat) == span_widths(data.grid(), data.rows as nat, data.cols as nat, configs@),
        spanned_ok(data.grid(), data.rows as nat, data.cols as nat, configs@),
    ensures
        res@ == row_block(
            data.grid(),
            r as int,
            data.rows as nat,
            data.cols as nat,
            widths@.map_values(|x: usize| x as nat),
            configs@,
            *border,
            *options,
        ),
{
    let mut result = String::new();
    push_char(&mut result, border.vertical);
    let row = data_row(data, r, widths, configs, border.vertical);
    push_str(&mut result, row.as_str());
    push_char(&mut result, border.vertical);
    push_char(&mut result, '\n');
    let ghost mid = result@;
    if options.show_row_separators && r < data.rows - 1 {
        push_char(&mut result, '├');
        let line = separator_line(data, r, widths, border.horizontal, Ghost(configs@));
        push_str(&mut result, line.as_str());
        push_char(&mut result, '┤');
        push_char(&mut result, '\n');
    }
    assert(result@ =~= row_block(
        data.grid(),
        r as int,
        data.rows as nat,
        data.cols as nat,
        widths@.map_values(|x: usize| x as nat),
        configs@,
        *border,
        *options,
    ));
    result
}

/// Draws a grid whose cells may span columns (see `spanned_table`).
#[verifier::spinoff_prover]
pub fn render_spanned_table(
    data: &SpannedTableData,
    border: &BorderChars,
    options: &RenderOptions,
    column_configs: &[ColumnConfig],
) -> (res: Result<String, String>)
    requires
        data.wf(),
        spanned_ok(data.grid(), data.rows as nat, data.cols as nat, column_configs@),
    ensures
        res matches Ok(s) && s@ == spanned_table(
            data.grid(),
            data.rows as nat,
            data.cols as nat,
            *border,
            *options,
            column_configs@,
        ),
{
    if data.is_empty() {
        return Ok(String::new());
    }
    let ghost g = data.grid();
    let autos = spanned_autos(data);
    let ghost a = autos@.map_values(|x: usize| x as nat);
    let mut widths: Vec<usize> = Vec::new();
    let mut i: usize = 0;
    while i < autos.len()
        invariant
            i <= autos@.len(),
            a == autos@.map_values(|x: usize| x as nat),
            widths@.len() == i,
            forall|k: int| 0 <= k < i ==> #[trigger] widths@[k] as nat == widths_for(column_configs@, a)[k],
        decreases autos@.len() - i,
    {
        let cfg = column_at(column_configs, i);
        let cw: usize = match cfg.width {
            Some(x) => x,
            None => autos[i],
        };
        assert(cw as nat == plain_content_width(column_configs@, i as int, a[i as int]));
        widths.push(cw.saturating_add(cfg.padding.left).saturating_add(cfg.padding.right));
        i = i + 1;
    }
    let ghost w = span_widths(g, data.rows as nat, data.cols as nat, column_configs@);
    assert(widths@.map_values(|x: usize| x as nat) =~= w);
    let mut result = String::new();
    if options.show_top_border {
        push_char(&mut result, border.top_left);
        let line = edge_line(data, 0, &widths, border.horizontal, border.top_junction, Ghost(column_configs@));
        push_str(&mut result, line.as_str());
        push_char(&mut result, border.top_right);
        push_char(&mut result, '\n');
    }
    let ghost top = result@;
    let ghost body = Seq::new(
        data.rows as nat,
        |r: int| row_block(g, r, data.rows as nat, data.cols as nat, w, column_configs@, *border, *options),
    );
    let mut r: usize = 0;
    while r < data.rows
        invariant
            data.wf(),
            g == data.grid(),
            r <= data.rows,
            widths@.len() == data.cols,
            widths@.map_values(|x: usize| x as nat) == w,
            w == span_widths(g, data.rows as nat, data.cols as nat, column_configs@),
            spanned_ok(g, data.rows as nat, data.cols as nat, column_configs@),
            body == Seq::new(
                data.rows as nat,
                |r: int| row_block(g, r, data.rows as nat, data.cols as nat, w, column_configs@, *border, *options),
            ),
            result@ == top + concat_all(body.take(r as int)),
        decreases data.rows - r,
    {
        assert(body.take(r + 1).drop_last() =~= body.take(r as int));
        let block = row_block_text(data, r, &widths, column_configs, border, options);
        push_str(&mut result, block.as_str());
        r = r + 1;
    }
    assert(body.take(r as int) =~= body);
    if options.show_bottom_border {
        push_char(&mut result, border.bottom_left);
        let line = edge_line(data, data.rows - 1, &widths, border.horizontal, border.bottom_junction, Ghost(column_configs@));
        push_str(&mut result, line.as_str());
        push_char(&mut result, border.bottom_right);
        push_char(&mut result, '\n');
    }
    assert(result@ =~= spanned_table(g, data.rows as nat, data.cols as nat, *border, *options, column_configs@));
    Ok(result)
}

} // verus!
