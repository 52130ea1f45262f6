use crate::alignment::{align_text, align_text_spec, is_default_column, Alignment, ColumnConfig};
use crate::border::BorderChars;
use crate::padding::{apply_padding, apply_padding_spec, Padding};
use crate::renderer::RenderOptions;
use crate::table_data::{
    column_count_of, first_bad_row, given_config, lemma_no_bad_row, plain_alignment,
    plain_content_width, plain_line, plain_line_spec, plain_padding, plain_total_width,
    plain_truncate, row_length_msg, validate_table_data, widths_for, TableData,
};
use crate::text::{concat_all, empty_string, lines, lines_of, push_char, push_str, spaces, spaces_string, views};
use crate::truncation::{truncate_text, truncate_text_ok, truncate_text_spec};
use crate::utils::ansi::{byte_len, sat_add};
use crate::utils::formatting::{rows_fit_first, table_view};
use vstd::prelude::*;

verus! {

/// The lines of a cell: one empty line for an empty cell, else its lines (`str::lines`).
pub open spec fn cell_lines(cell: Seq<char>) -> Seq<Seq<char>> {
    if cell.len() == 0 {
        seq![Seq::empty()]
    } else {
        lines_of(cell)
    }
}

/// The longest of some lines, in bytes.
pub open spec fn longest_line(ls: Seq<Seq<char>>) -> nat
    decreases ls.len(),
{
    if ls.len() == 0 {
        0
    } else {
        let rest = longest_line(ls.drop_last());
        if byte_len(ls.last()) > rest {
            byte_len(ls.last())
        } else {
            rest
        }
    }
}

/// The longest line (in bytes) of the cells in column `c` among the first `n` rows.
pub open spec fn newline_column_max(t: Seq<Seq<Seq<char>>>, c: int, n: int) -> nat
    decreases n,
{
    if n <= 0 {
        0
    } else {
        let rest = newline_column_max(t, c, n - 1);
        let w = if 0 <= c < t[n - 1].len() {
            longest_line(cell_lines(t[n - 1][c]))
        } else {
            0
        };
        if w > rest {
            w
        } else {
            rest
        }
    }
}

/// For each column of the first row, its longest line in bytes.
pub open spec fn newline_widths(t: Seq<Seq<Seq<char>>>) -> Seq<nat> {
    Seq::new(column_count_of(t), |c: int| newline_column_max(t, c, t.len() as int))
}

/// `auto[c]`, or 0 past its end.
pub open spec fn auto_at(auto: Seq<nat>, c: int) -> nat {
    if 0 <= c < auto.len() {
        auto[c]
    } else {
        0
    }
}

/// The lines of cell `c` once each is cut and placed in its column's content width.
pub open spec fn placed_lines(configs: Seq<ColumnConfig>, c: int, cell: Seq<char>, auto: nat) -> Seq<Seq<char>> {
    Seq::new(
        cell_lines(cell).len(),
        |k: int|
            align_text_spec(
                plain_truncate(configs, c, cell_lines(cell)[k], true),
                plain_content_width(configs, c, auto),
                plain_alignment(configs, c),
            ),
    )
}

/// The number of lines of a row: the most lines of any of its cells, at least one.
pub open spec fn row_height(ls: Seq<Seq<Seq<char>>>) -> nat
    decreases ls.len(),
{
    if ls.len() == 0 {
        1
    } else {
        let rest = row_height(ls.drop_last());
        if ls.last().len() > rest {
            ls.last().len()
        } else {
            rest
        }
    }
}

/// Line `l` of a cell's lines, or a blank line of the content width below them.
pub open spec fn line_or_blank(ls: Seq<Seq<char>>, l: int, cw: nat) -> Seq<char> {
    if 0 <= l < ls.len() {
        ls[l]
    } else {
        spaces(cw)
    }
}

/// A row drawn over as many lines as its tallest cell: on each line the vertical character,
/// each cell's line padded and followed by it, a line feed.
pub open spec fn newline_row(row: Seq<Seq<char>>, configs: Seq<ColumnConfig>, auto: Seq<nat>, v: char) -> Seq<char> {
    let ls = Seq::new(row.len(), |c: int| placed_lines(configs, c, row[c], auto_at(auto, c)));
    concat_all(
        Seq::new(
            row_height(ls),
            |l: int|
                seq![v] + concat_all(
                    Seq::new(
                        row.len(),
                        |c: int|
                            apply_padding_spec(
                                line_or_blank(ls[c], l, plain_content_width(configs, c, auto_at(auto, c))),
                                plain_padding(configs, c),
                            ) + seq![v],
                    ),
                ) + seq!['\n'],
        ),
    )
}

/// Whether some cell of the table holds a line break.
pub open spec fn has_line_break(t: Seq<Seq<Seq<char>>>) -> bool {
    exists|r: int, c: int| 0 <= r < t.len() && 0 <= c < t[r].len() && #[trigger] t[r][c].contains('\n')
}

/// Whether some cell of the table holds a line break (see `has_line_break`).
fn table_has_break(data: &TableData) -> (res: bool)
    ensures
        res == has_line_break(table_view(data.rows@)),
{
    let ghost t = table_view(data.rows@);
    let mut r: usize = 0;
    while r < data.rows.len()
        invariant
            r <= data.rows@.len(),
            t == table_view(data.rows@),
            forall|i: int, c: int| 0 <= i < r && 0 <= c < t[i].len() ==> !(#[trigger] t[i][c].contains('\n')),
        decreases data.rows@.len() - r,
    {
        let row = &data.rows[r];
        assert(t[r as int] == views(row@));
        let mut c: usize = 0;
        while c < row.len()
            invariant
                c <= row@.len(),
                r < data.rows@.len(),
                row == data.rows@[r as int],
                t == table_view(data.rows@),
                t[r as int] == views(row@),
                forall|k: int| 0 <= k < c ==> !(#[trigger] t[r as int][k].contains('\n')),
            decreases row@.len() - c,
        {
            if crate::text::str_contains_char(row[c].as_str(), '\n') {
                assert(t[r as int][c as int].contains('\n'));
                return true;
            }
            c = c + 1;
        }
        r = r + 1;
    }
    false
}

/// What `render_table_with_newlines` gives for rows of equal length: nothing for no rows;
/// else the top line when shown, each row over its lines followed (but the last) by a line
/// between rows when these are shown or some cell holds a line break (rows of several lines
/// are told apart by them), and the bottom line when shown. The content widths are the
/// longest lines in bytes where no width is given.
pub open spec fn newline_table(t: Seq<Seq<Seq<char>>>, b: BorderChars, o: RenderOptions, configs: Seq<ColumnConfig>) -> Seq<
    char,
> {
    let auto = newline_widths(t);
    let w = widths_for(configs, auto);
    if t.len() == 0 {
        Seq::empty()
    } else {
        (if o.show_top_border {
            plain_line_spec(b.top_left, b.top_junction, b.top_right, b.horizontal, w)
        } else {
            Seq::empty()
        }) + concat_all(
            Seq::new(
                t.len(),
                |r: int|
                    newline_row(t[r], configs, auto, b.vertical) + if (o.show_row_separators || has_line_break(t))
                        && r < t.len() - 1 {
                        plain_line_spec('├', '┼', '┤', b.horizontal, w)
                    } else {
                        Seq::empty()
                    },
            ),
        ) + if o.show_bottom_border {
            plain_line_spec(b.bottom_left, b.bottom_junction, b.bottom_right, b.horizontal, w)
        } else {
            Seq::empty()
        }
    }
}

/// Whether every line of every cell can be cut by its column's truncation.
pub open spec fn newline_cells_ok(t: Seq<Seq<Seq<char>>>, configs: Seq<ColumnConfig>) -> bool {
    forall|r: int, c: int, k: int|
        0 <= r < t.len() && 0 <= c < t[r].len() && c < configs.len() && 0 <= k < cell_lines(t[r][c]).len()
            ==> truncate_text_ok(#[trigger] cell_lines(t[r][c])[k], configs[c].truncation)
}

/// The lines of a cell (see `cell_lines`).
pub fn split_lines(text: &str) -> (res: Vec<String>)
    ensures
        views(res@) == cell_lines(text@),
{
    if text.as_bytes().len() == 0 {
        let mut v: Vec<String> = Vec::new();
        let e = empty_string();
        v.push(e);
        assert(views(v@) =~= seq![Seq::<char>::empty()]);
        v
    } else {
        lines(text)
    }
}

/// The longest of some lines, in bytes (see `longest_line`).
fn longest(ls: &Vec<String>) -> (res: usize)
    ensures
        res == longest_line(views(ls@)),
{
    let mut best: usize = 0;
    let mut k: usize = 0;
    while k < ls.len()
        invariant
            k <= ls@.len(),
            best == longest_line(views(ls@).take(k as int)),
        decreases ls@.len() - k,
    {
        assert(views(ls@).take(k + 1).drop_last() =~= views(ls@).take(k as int));
        assert(views(ls@)[k as int] == ls@[k as int]@);
        let b = ls[k].as_str().as_bytes().len();
        if b > best {
            best = b;
        }
        k = k + 1;
    }
    assert(views(ls@).take(k as int) =~= views(ls@));
    best
}

/// For each column of the first row, its longest line in bytes (see `newline_widths`).
#[verifier::spinoff_prover]
pub fn calculate_newline_column_widths(rows: &[Vec<String>]) -> (res: Vec<usize>)
    requires
        rows_fit_first(table_view(rows@)),
    ensures
        res@.map_values(|w: usize| w as nat) == newline_widths(table_view(rows@)),
{
    let ghost t = table_view(rows@);
    let n: usize = if rows.len() > 0 {
        rows[0].len()
    } else {
        0
    };
    assert(n == column_count_of(t));
    let mut widths: Vec<usize> = Vec::new();
    let mut i: usize = 0;
    while i < n
        invariant
            i <= n,
            widths@.len() == i,
            forall|c: int| 0 <= c < i ==> #[trigger] widths@[c] == 0,
        decreases n - i,
    {
        widths.push(0);
        i = i + 1;
    }
    let mut r: usize = 0;
    while r < rows.len()
        invariant
            r <= rows@.len(),
            t == table_view(rows@),
            rows_fit_first(t),
            n == column_count_of(t),
            widths@.len() == n,
            forall|c: int| 0 <= c < n ==> #[trigger] widths@[c] as nat == newline_column_max(t, c, r as int),
        decreases rows@.len() - r,
    {
        assert(t[r as int] == views(rows@[r as int]@));
        assert(t[r as int].len() <= t[0].len());
        let mut c: usize = 0;
        while c < rows[r].len()
            invariant
                c <= rows@[r as int]@.len() <= n,
                r < rows@.len(),
                t == table_view(rows@),
                t[r as int] == views(rows@[r as int]@),
                widths@.len() == n,
                forall|k: int|
                    0 <= k < n ==> #[trigger] widths@[k] as nat == if k < c {
                        newline_column_max(t, k, r + 1)
                    } else {
                        newline_column_max(t, k, r as int)
                    },
            decreases rows@[r as int]@.len() - c,
        {
            let ls = split_lines(rows[r][c].as_str());
            assert(t[r as int][c as int] == rows@[r as int]@[c as int]@);
            let w = longest(&ls);
            let cur = widths[c];
            if w > cur {
                widths.set(c, w);
            }
            c = c + 1;
        }
        r = r + 1;
    }
    assert(widths@.map_values(|w: usize| w as nat) =~= newline_widths(t));
    widths
}

/// The settings of column `i`: its own, or the defaults past the given ones.
fn column_at(configs: &[ColumnConfig], i: usize) -> (res: ColumnConfig)
    ensures
        i < configs@.len() ==> res == configs@[i as int],
        i >= configs@.len() ==> is_default_column(res),
{
    if i < configs.len() {
        configs[i].duplicate()
    } else {
        ColumnConfig::default()
    }
}

/// A cell's lines cut and placed in the column (see `placed_lines`).
fn place_lines(configs: &[ColumnConfig], c: usize, cell: &str, auto: usize) -> (res: Vec<String>)
    requires
        c < configs@.len() ==> forall|k: int|
            0 <= k < cell_lines(cell@).len() ==> truncate_text_ok(
                #[trigger] cell_lines(cell@)[k],
                configs@[c as int].truncation,
            ),
    ensures
        views(res@) == placed_lines(configs@, c as int, cell@, auto as nat),
{
    let cfg = column_at(configs, c);
    let cw: usize = match cfg.width {
        Some(w) => w,
        None => auto,
    };
    assert(cw as nat == plain_content_width(configs@, c as int, auto as nat));
    let ls = split_lines(cell);
    let ghost target = placed_lines(configs@, c as int, cell@, auto as nat);
    let mut out: Vec<String> = Vec::new();
    let mut k: usize = 0;
    while k < ls.len()
        invariant
            k <= ls@.len(),
            views(ls@) == cell_lines(cell@),
            target == placed_lines(configs@, c as int, cell@, auto as nat),
            views(out@) == target.take(k as int),
            c < configs@.len() ==> cfg == configs@[c as int],
            c >= configs@.len() ==> is_default_column(cfg),
            cw as nat == plain_content_width(configs@, c as int, auto as nat),
            c < configs@.len() ==> forall|j: int|
                0 <= j < cell_lines(cell@).len() ==> truncate_text_ok(
                    #[trigger] cell_lines(cell@)[j],
                    configs@[c as int].truncation,
                ),
        decreases ls@.len() - k,
    {
        assert(views(ls@)[k as int] == ls@[k as int]@);
        let ghost line = cell_lines(cell@)[k as int];
        if c >= configs.len() {
            assert(truncate_text_spec(line, cfg.truncation) == line);
        } else {
            assert(cfg.truncation == (crate::truncation::TruncationConfig {
                truncate_start: cfg.truncation.truncate_start && true,
                ..cfg.truncation
            }));
        }
        let cut = truncate_text(ls[k].as_str(), &cfg.truncation);
        let placed = align_text(cut.as_str(), cw, cfg.alignment);
        assert(placed@ == target[k as int]);
        let ghost prev = views(out@);
        out.push(placed);
        assert(views(out@) =~= prev.push(placed@));
        k = k + 1;
        assert(views(out@) =~= target.take(k as int));
    }
    assert(target.take(k as int) =~= target);
    out
}

/// A row drawn over its lines (see `newline_row`).
#[verifier::spinoff_prover]
fn draw_newline_row(row: &Vec<String>, configs: &[ColumnConfig], auto: &Vec<usize>, v: char) -> (res: String)
    requires
        row@.len() <= auto@.len(),
        forall|c: int, k: int|
            0 <= c < row@.len() && c < configs@.len() && 0 <= k < cell_lines(row@[c]@).len()
                ==> truncate_text_ok(#[trigger] cell_lines(row@[c]@)[k], configs@[c].truncation),
    ensures
        res@ == newline_row(views(row@), configs@, auto@.map_values(|w: usize| w as nat), v),
{
    let ghost a = auto@.map_values(|w: usize| w as nat);
    let ghost r = views(row@);
    let ghost ls = Seq::new(r.len(), |c: int| placed_lines(configs@, c, r[c], auto_at(a, c)));
    let mut cells: Vec<Vec<String>> = Vec::new();
    let mut height: usize = 1;
    let mut c: usize = 0;
    while c < row.len()
        invariant
            c <= row@.len() <= auto@.len(),
            r == views(row@),
            a == auto@.map_values(|w: usize| w as nat),
            ls == Seq::new(r.len(), |c: int| placed_lines(configs@, c, r[c], auto_at(a, c))),
            cells@.len() == c,
            forall|k: int| 0 <= k < c ==> views(#[trigger] cells@[k]@) == ls[k],
            height == row_height(ls.take(c as int)),
            forall|c2: int, k: int|
                0 <= c2 < row@.len() && c2 < configs@.len() && 0 <= k < cell_lines(row@[c2]@).len()
                    ==> truncate_text_ok(#[trigger] cell_lines(row@[c2]@)[k], configs@[c2].truncation),
        decreases row@.len() - c,
    {
        assert(r[c as int] == row@[c as int]@);
        assert(auto_at(a, c as int) == auto@[c as int] as nat);
        let placed = place_lines(configs, c, row[c].as_str(), auto[c]);
        assert(ls.take(c + 1).drop_last() =~= ls.take(c as int));
        if placed.len() > height {
            height = placed.len();
        }
        cells.push(placed);
        c = c + 1;
    }
    assert(ls.take(c as int) =~= ls);
    let ghost lines_text = Seq::new(
        height as nat,
        |l: int|
            seq![v] + concat_all(
                Seq::new(
                    r.len(),
                    |c: int|
                        apply_padding_spec(
                            line_or_blank(ls[c], l, plain_content_width(configs@, c, auto_at(a, c))),
                            plain_padding(configs@, c),
                        ) + seq![v],
                ),
            ) + seq!['\n'],
    );
    let mut out = String::new();
    let mut l: usize = 0;
    while l < height
        invariant
            l <= height,
            r == views(row@),
            row@.len() <= auto@.len(),
            a == auto@.map_values(|w: usize| w as nat),
            ls == Seq::new(r.len(), |c: int| placed_lines(configs@, c, r[c], auto_at(a, c))),
            cells@.len() == r.len(),
            forall|k: int| 0 <= k < r.len() ==> views(#[trigger] cells@[k]@) == ls[k],
            lines_text == Seq::new(
                height as nat,
                |l: int|
                    seq![v] + concat_all(
                        Seq::new(
                            r.len(),
                            |c: int|
                                apply_padding_spec(
                                    line_or_blank(ls[c], l, plain_content_width(configs@, c, auto_at(a, c))),
                                    plain_padding(configs@, c),
                                ) + seq![v],
                        ),
                    ) + seq!['\n'],
            ),
            out@ == concat_all(lines_text.take(l as int)),
        decreases height - l,
    {
        assert(lines_text.take(l + 1).drop_last() =~= lines_text.take(l as int));
        let ghost parts = Seq::new(
            r.len(),
            |c: int|
                apply_padding_spec(
                    line_or_blank(ls[c], l as int, plain_content_width(configs@, c, auto_at(a, c))),
                    plain_padding(configs@, c),
                ) + seq![v],
        );
        let mut line = String::new();
        push_char(&mut line, v);
        let ghost start = line@;
        let mut c: usize = 0;
        while c < cells.len()
            invariant
                c <= cells@.len() == r.len() <= auto@.len(),
                a == auto@.map_values(|w: usize| w as nat),
                forall|k: int| 0 <= k < r.len() ==> views(#[trigger] cells@[k]@) == ls[k],
                parts == Seq::new(
                    r.len(),
                    |c: int|
                        apply_padding_spec(
                            line_or_blank(ls[c], l as int, plain_content_width(configs@, c, auto_at(a, c))),
                            plain_padding(configs@, c),
                        ) + seq![v],
                ),
                line@ == start + concat_all(parts.take(c as int)),
            decreases cells@.len() - c,
        {
            assert(parts.take(c + 1).drop_last() =~= parts.take(c as int));
            let cfg = column_at(configs, c);
            let cw: usize = match cfg.width {
                Some(w) => w,
                None => auto[c],
            };
            assert(auto_at(a, c as int) == auto@[c as int] as nat);
            assert(cw as nat == plain_content_width(configs@, c as int, auto_at(a, c as int)));
            assert(cfg.padding == plain_padding(configs@, c as int));
            let ls_c = &cells[c];
            let content = if l < ls_c.len() {
                assert(views(ls_c@)[l as int] == ls_c@[l as int]@);
                ls_c[l].clone()
            } else {
                spaces_string(cw)
            };
            assert(content@ == line_or_blank(ls[c as int], l as int, cw as nat));
            let padded = apply_padding(content.as_str(), cfg.padding);
            push_str(&mut line, padded.as_str());
            push_char(&mut line, v);
            c = c + 1;
        }
        assert(parts.take(c as int) =~= parts);
        push_char(&mut line, '\n');
        assert(line@ == lines_text[l as int]);
        push_str(&mut out, line.as_str());
        l = l + 1;
    }
    assert(lines_text.take(l as int) =~= lines_text);
    out
}

/// Draws a table whose cells may hold several lines (see `newline_table`); rows of different
/// lengths are refused (see `validate_table_data`).
#[verifier::spinoff_prover]
pub fn render_table_with_newlines(
    data: &TableData,
    border: &BorderChars,
    options: &RenderOptions,
    column_configs: &[ColumnConfig],
) -> (res: Result<String, String>)
    requires
        newline_cells_ok(table_view(data.rows@), column_configs@),
    ensures
        match first_bad_row(table_view(data.rows@), 0, column_count_of(table_view(data.rows@))) {
            None => res matches Ok(s) && s@ == newline_table(
                table_view(data.rows@),
                *border,
                *options,
                column_configs@,
            ),
            Some(i) => res matches Err(m) && m@ == row_length_msg(
                i,
                table_view(data.rows@)[i as int].len(),
                column_count_of(table_view(data.rows@)),
            ),
        },
{
    match validate_table_data(data) {
        Ok(_) => {},
        Err(e) => {
            return Err(e);
        },
    }
    let ghost t = table_view(data.rows@);
    if data.rows.len() == 0 {
        return Ok(String::new());
    }
    proof {
        lemma_no_bad_row(t, 0, column_count_of(t));
        assert forall|i: int| 0 <= i < t.len() implies #[trigger] t[i].len() <= t[0].len() by {}
    }
    let auto = calculate_newline_column_widths(data.rows.as_slice());
    let ghost a = auto@.map_values(|w: usize| w as nat);
    let mut widths: Vec<usize> = Vec::new();
    let mut i: usize = 0;
    while i < auto.len()
        invariant
            i <= auto@.len(),
            a == auto@.map_values(|w: usize| w as nat),
            widths@.len() == i,
            forall|k: int| 0 <= k < i ==> #[trigger] widths@[k] as nat == widths_for(column_configs@, a)[k],
        decreases auto@.len() - i,
    {
        let cfg = column_at(column_configs, i);
        let cw: usize = match cfg.width {
            Some(w) => w,
            None => auto[i],
        };
        assert(cw as nat == plain_content_width(column_configs@, i as int, a[i as int]));
        widths.push(cw.saturating_add(cfg.padding.left).saturating_add(cfg.padding.right));
        i = i + 1;
    }
    let ghost w = widths_for(column_configs@, a);
    assert(widths@.map_values(|x: usize| x as nat) =~= w);
    let mut result = String::new();
    if options.show_top_border {
        let line = plain_line(border.top_left, border.top_junction, border.top_right, border.horizontal, &widths);
        push_str(&mut result, line.as_str());
    }
    let ghost top = result@;
    let sep = options.show_row_separators || table_has_break(data);
    let ghost body = Seq::new(
        t.len(),
        |r: int|
            newline_row(t[r], column_configs@, a, border.vertical) + if sep && r < t.len() - 1 {
                plain_line_spec('├', '┼', '┤', border.horizontal, w)
            } else {
                Seq::empty()
            },
    );
    let mut r: usize = 0;
    while r < data.rows.len()
        invariant
            r <= data.rows@.len(),
            t == table_view(data.rows@),
            t.len() > 0,
            forall|k: int| 0 <= k < t.len() ==> #[trigger] t[k].len() == column_count_of(t),
            auto@.len() == column_count_of(t),
            a == auto@.map_values(|w: usize| w as nat),
            a == newline_widths(t),
            widths@.map_values(|x: usize| x as nat) == w,
            w == widths_for(column_configs@, a),
            newline_cells_ok(t, column_configs@),
            sep == (options.show_row_separators || has_line_break(t)),
            body == Seq::new(
                t.len(),
                |r: int|
                    newline_row(t[r], column_configs@, a, border.vertical) + if sep && r < t.len() - 1 {
                        plain_line_spec('├', '┼', '┤', border.horizontal, w)
                    } else {
                        Seq::empty()
                    },
            ),
            result@ == top + concat_all(body.take(r as int)),
        decreases data.rows@.len() - r,
    {
        assert(body.take(r + 1).drop_last() =~= body.take(r as int));
        assert(t[r as int] == views(data.rows@[r as int]@));
        proof {
            assert forall|c: int, k: int|
                0 <= c < data.rows@[r as int]@.len() && c < column_configs@.len() && 0 <= k < cell_lines(
                    data.rows@[r as int]@[c]@,
                ).len() implies truncate_text_ok(
                #[trigger] cell_lines(data.rows@[r as int]@[c]@)[k],
                column_configs@[c].truncation,
            ) by {
                assert(t[r as int][c] == data.rows@[r as int]@[c]@);
            }
        }
        let text = draw_newline_row(&data.rows[r], column_configs, &auto, border.vertical);
        push_str(&mut result, text.as_str());
        if sep && r < data.rows.len() - 1 {
            let line = plain_line('├', '┼', '┤', border.horizontal, &widths);
            push_str(&mut result, line.as_str());
        }
        r = r + 1;
    }
    assert(body.take(r as int) =~= body);
    let ghost mid = result@;
    if options.show_bottom_border {
        let line = plain_line(
            border.bottom_left,
            border.bottom_junction,
            border.bottom_right,
            border.horizontal,
            &widths,
        );
        push_str(&mut result, line.as_str());
    }
    assert(result@ =~= newline_table(t, *border, *options, column_configs@));
    Ok(result)
}

} // verus!
