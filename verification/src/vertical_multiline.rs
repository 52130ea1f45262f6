use crate::alignment::{align_text, align_text_spec, is_default_column, ColumnConfig};
use crate::border::BorderChars;
use crate::padding::{apply_padding, apply_padding_spec};
use crate::pipeline::calculator::line_or_empty;
use crate::renderer::RenderOptions;
use crate::table_data::{
    byte_column_widths, calculate_column_widths, column_count_of, first_bad_row, lemma_no_bad_row,
    plain_alignment, plain_content_width, plain_line, plain_line_spec, plain_padding, plain_truncate,
    row_length_msg, validate_table_data, widths_for, TableData,
};
use crate::text::{concat_all, owned, push_char, push_str, views};
use crate::truncation::{truncate_text, truncate_text_ok, truncate_text_spec};
use crate::utils::formatting::table_view;
use crate::newline::{cell_lines, split_lines};
use crate::pipeline::processor::align_vertically_spec;
use crate::vertical_alignment::apply_vertical_alignment;
use crate::wrapping::{wrap_text, wrap_text_spec};
use vstd::prelude::*;

verus! {

/// `auto[c]`, or 0 past its end.
pub open spec fn width_or_zero(auto: Seq<nat>, c: int) -> nat {
    if 0 <= c < auto.len() {
        auto[c]
    } else {
        0
    }
}

/// The lines of cell `c`: cut by its column's truncation, then wrapped when the column
/// wraps, else split at line feeds (see `cell_lines`).
pub open spec fn wrapped_lines(configs: Seq<ColumnConfig>, c: int, cell: Seq<char>) -> Seq<Seq<char>> {
    let cut = plain_truncate(configs, c, cell, true);
    if 0 <= c < configs.len() && configs[c].wrap_config is Some {
        wrap_text_spec(cut, configs[c].wrap_config.unwrap())
    } else {
        cell_lines(cut)
    }
}

/// The lines of cell `c` placed in its content width, then placed as its column's vertical
/// alignment says among `h` lines (empty lines added).
pub open spec fn stacked_lines(
    configs: Seq<ColumnConfig>,
    c: int,
    cell: Seq<char>,
    auto: nat,
    h: nat,
) -> Seq<Seq<char>> {
    let ls = wrapped_lines(configs, c, cell);
    align_vertically_spec(
        Seq::new(
            ls.len(),
            |k: int| align_text_spec(ls[k], plain_content_width(configs, c, auto), plain_alignment(configs, c)),
        ),
        h,
        plain_vertical(configs, c),
    )
}

/// The vertical alignment of column `i` (top by default).
pub open spec fn plain_vertical(configs: Seq<ColumnConfig>, i: int) -> crate::types::VerticalAlignment {
    if 0 <= i < configs.len() {
        configs[i].vertical_alignment
    } else {
        crate::types::VerticalAlignment::Top
    }
}

/// The number of lines of a row: the most lines of any of its cells, at least one.
pub open spec fn wrapped_height(ls: Seq<Seq<Seq<char>>>) -> nat
    decreases ls.len(),
{
    if ls.len() == 0 {
        1
    } else {
        let rest = wrapped_height(ls.drop_last());
        if ls.last().len() > rest {
            ls.last().len()
        } else {
            rest
        }
    }
}

/// A row drawn over as many lines as its tallest cell: on each line the vertical character,
/// each cell's line (see `stacked_lines`; empty past them) padded and followed by it, a line
/// feed.
pub open spec fn wrapped_row(row: Seq<Seq<char>>, configs: Seq<ColumnConfig>, auto: Seq<nat>, v: char) -> Seq<char> {
    let ls = Seq::new(row.len(), |c: int| wrapped_lines(configs, c, row[c]));
    let h = wrapped_height(ls);
    concat_all(
        Seq::new(
            h,
            |l: int|
                seq![v] + concat_all(
                    Seq::new(
                        row.len(),
                        |c: int|
                            apply_padding_spec(
                                line_or_empty(stacked_lines(configs, c, row[c], width_or_zero(auto, c), h), l),
                                plain_padding(configs, c),
                            ) + seq![v],
                    ),
                ) + seq!['\n'],
        ),
    )
}

/// What `render_table_with_vertical_alignment` gives for rows of equal length: nothing for no rows;
/// else the top line when shown, each row over its lines followed (but the last) by a line
/// between rows when shown, and the bottom line when shown. The content widths are the
/// longest cells in bytes where no width is given.
pub open spec fn wrapped_table(t: Seq<Seq<Seq<char>>>, b: BorderChars, o: RenderOptions, configs: Seq<ColumnConfig>) -> Seq<
    char,
> {
    let auto = byte_column_widths(t);
    let w = widths_for(configs, auto);
    if t.len() == 0 {
        Seq::empty()
    } else {
        (if o.show_top_border {
            plain_line_spec(b.top_left, b.top_junction, b.top_right, b.horizontal, w)
        } else {
            Seq::empty()
        }) + concat_all(
            Seq::new(
                t.len(),
                |r: int|
                    wrapped_row(t[r], configs, auto, b.vertical) + if o.show_row_separators && r < t.len()
                        - 1 {
                        plain_line_spec('├', '┼', '┤', b.horizontal, w)
                    } else {
                        Seq::empty()
                    },
            ),
        ) + if o.show_bottom_border {
            plain_line_spec(b.bottom_left, b.bottom_junction, b.bottom_right, b.horizontal, w)
        } else {
            Seq::empty()
        }
    }
}

/// Whether every cell can be cut by its column's truncation.
pub open spec fn wrapped_cells_ok(t: Seq<Seq<Seq<char>>>, configs: Seq<ColumnConfig>) -> bool {
    forall|r: int, c: int|
        0 <= r < t.len() && 0 <= c < t[r].len() && c < configs.len() ==> truncate_text_ok(
            #[trigger] t[r][c],
            configs[c].truncation,
        )
}

/// The settings of column `i`: its own, or the defaults past the given ones.
fn column_at(configs: &[ColumnConfig], i: usize) -> (res: ColumnConfig)
    ensures
        i < configs@.len() ==> res == configs@[i as int],
        i >= configs@.len() ==> is_default_column(res),
{
    if i < configs.len() {
        configs[i].duplicate()
    } else {
        ColumnConfig::default()
    }
}

/// A cell cut and wrapped (see `wrapped_lines`).
fn wrap_cell_lines(configs: &[ColumnConfig], c: usize, cell: &str) -> (res: Vec<String>)
    requires
        c < configs@.len() ==> truncate_text_ok(cell@, configs@[c as int].truncation),
    ensures
        views(res@) == wrapped_lines(configs@, c as int, cell@),
{
    let cfg = column_at(configs, c);
    if c >= configs.len() {
        assert(truncate_text_spec(cell@, cfg.truncation) == cell@);
    } else {
        assert(cfg.truncation == (crate::truncation::TruncationConfig {
            truncate_start: cfg.truncation.truncate_start && true,
            ..cfg.truncation
        }));
    }
    let cut = truncate_text(cell, &cfg.truncation);
    match &cfg.wrap_config {
        Some(w) => wrap_text(cut.as_str(), w),
        None => split_lines(cut.as_str()),
    }
}

/// A row drawn over its lines (see `wrapped_row`).
#[verifier::spinoff_prover]
fn draw_wrapped_row(row: &Vec<String>, configs: &[ColumnConfig], auto: &Vec<usize>, v: char) -> (res: String)
    requires
        row@.len() <= auto@.len(),
        forall|c: int| 0 <= c < row@.len() && c < configs@.len() ==> truncate_text_ok(#[trigger] row@[c]@, configs@[c].truncation),
    ensures
        res@ == wrapped_row(views(row@), configs@, auto@.map_values(|w: usize| w as nat), v),
{
    let ghost a = auto@.map_values(|w: usize| w as nat);
    let ghost r = views(row@);
    let ghost ls = Seq::new(r.len(), |c: int| wrapped_lines(configs@, c, r[c]));
    let mut cells: Vec<Vec<String>> = Vec::new();
    let mut height: usize = 1;
    let mut c: usize = 0;
    while c < row.len()
        invariant
            c <= row@.len() <= auto@.len(),
            r == views(row@),
            ls == Seq::new(r.len(), |c: int| wrapped_lines(configs@, c, r[c])),
            cells@.len() == c,
            forall|k: int| 0 <= k < c ==> views(#[trigger] cells@[k]@) == ls[k],
            height == wrapped_height(ls.take(c as int)),
            forall|c2: int| 0 <= c2 < row@.len() && c2 < configs@.len() ==> truncate_text_ok(#[trigger] row@[c2]@, configs@[c2].truncation),
        decreases row@.len() - c,
    {
        assert(r[c as int] == row@[c as int]@);
        let lines = wrap_cell_lines(configs, c, row[c].as_str());
        assert(ls.take(c + 1).drop_last() =~= ls.take(c as int));
        if lines.len() > height {
            height = lines.len();
        }
        cells.push(lines);
        c = c + 1;
    }
    assert(ls.take(c as int) =~= ls);
    let ghost h = height as nat;
    let ghost st = Seq::new(r.len(), |c: int| stacked_lines(configs@, c, r[c], width_or_zero(a, c), h));
    let mut stacked: Vec<Vec<String>> = Vec::new();
    let mut c: usize = 0;
    while c < cells.len()
        invariant
            c <= cells@.len() == r.len() <= auto@.len(),
            a == auto@.map_values(|w: usize| w as nat),
            h == height as nat,
            ls == Seq::new(r.len(), |c: int| wrapped_lines(configs@, c, r[c])),
            forall|k: int| 0 <= k < r.len() ==> views(#[trigger] cells@[k]@) == ls[k],
            st == Seq::new(r.len(), |c: int| stacked_lines(configs@, c, r[c], width_or_zero(a, c), h)),
            stacked@.len() == c,
            forall|k: int| 0 <= k < c ==> views(#[trigger] stacked@[k]@) == st[k],
        decreases cells@.len() - c,
    {
        let cfg = column_at(configs, c);
        let cw: usize = match cfg.width {
            Some(w) => w,
            None => auto[c],
        };
        assert(width_or_zero(a, c as int) == auto@[c as int] as nat);
        assert(cw as nat == plain_content_width(configs@, c as int, width_or_zero(a, c as int)));
        assert(cfg.alignment == plain_alignment(configs@, c as int));
        assert(cfg.vertical_alignment == plain_vertical(configs@, c as int));
        let lines_c = &cells[c];
        let ghost target = Seq::new(
            ls[c as int].len(),
            |k: int|
                align_text_spec(
                    ls[c as int][k],
                    plain_content_width(configs@, c as int, width_or_zero(a, c as int)),
                    plain_alignment(configs@, c as int),
                ),
        );
        let mut aligned: Vec<String> = Vec::new();
        let mut k: usize = 0;
        while k < lines_c.len()
            invariant
                k <= lines_c@.len(),
                views(lines_c@) == ls[c as int],
                cw as nat == plain_content_width(configs@, c as int, width_or_zero(a, c as int)),
                cfg.alignment == plain_alignment(configs@, c as int),
                target == Seq::new(
                    ls[c as int].len(),
                    |k: int|
                        align_text_spec(
                            ls[c as int][k],
                            plain_content_width(configs@, c as int, width_or_zero(a, c as int)),
                            plain_alignment(configs@, c as int),
                        ),
                ),
                views(aligned@) == target.take(k as int),
            decreases lines_c@.len() - k,
        {
            assert(views(lines_c@)[k as int] == lines_c@[k as int]@);
            let x = align_text(lines_c[k].as_str(), cw, cfg.alignment);
            let ghost prev = views(aligned@);
            aligned.push(x);
            assert(views(aligned@) =~= prev.push(x@));
            k = k + 1;
            assert(views(aligned@) =~= target.take(k as int));
        }
        assert(target.take(k as int) =~= target);
        let placed = apply_vertical_alignment(aligned, height, cfg.vertical_alignment);
        assert(views(placed@) == st[c as int]);
        stacked.push(placed);
        c = c + 1;
    }
    let ghost lines_text = Seq::new(
        h,
        |l: int|
            seq![v] + concat_all(
                Seq::new(
                    r.len(),
                    |c: int|
                        apply_padding_spec(
                            line_or_empty(stacked_lines(configs@, c, r[c], width_or_zero(a, c), h), l),
                            plain_padding(configs@, c),
                        ) + seq![v],
                ),
            ) + seq!['\n'],
    );
    assert(wrapped_height(ls) == h);
    let mut out = String::new();
    let mut l: usize = 0;
    while l < height
        invariant
            l <= height,
            h == height as nat,
            r == views(row@),
            a == auto@.map_values(|w: usize| w as nat),
            st == Seq::new(r.len(), |c: int| stacked_lines(configs@, c, r[c], width_or_zero(a, c), h)),
            stacked@.len() == r.len(),
            forall|k: int| 0 <= k < r.len() ==> views(#[trigger] stacked@[k]@) == st[k],
            lines_text == Seq::new(
                h,
                |l: int|
                    seq![v] + concat_all(
                        Seq::new(
                            r.len(),
                            |c: int|
                                apply_padding_spec(
                                    line_or_empty(stacked_lines(configs@, c, r[c], width_or_zero(a, c), h), l),
                                    plain_padding(configs@, c),
                                ) + seq![v],
                        ),
                    ) + seq!['\n'],
            ),
            out@ == concat_all(lines_text.take(l as int)),
        decreases height - l,
    {
        assert(lines_text.take(l + 1).drop_last() =~= lines_text.take(l as int));
        let ghost parts = Seq::new(
            r.len(),
            |c: int|
                apply_padding_spec(
                    line_or_empty(stacked_lines(configs@, c, r[c], width_or_zero(a, c), h), l as int),
                    plain_padding(configs@, c),
                ) + seq![v],
        );
        let mut line = String::new();
        push_char(&mut line, v);
        let ghost start = line@;
        let mut c: usize = 0;
        while c < stacked.len()
            invariant
                c <= stacked@.len() == r.len(),
                forall|k: int| 0 <= k < r.len() ==> views(#[trigger] stacked@[k]@) == st[k],
                st == Seq::new(r.len(), |c: int| stacked_lines(configs@, c, r[c], width_or_zero(a, c), h)),
                parts == Seq::new(
                    r.len(),
                    |c: int|
                        apply_padding_spec(
                            line_or_empty(stacked_lines(configs@, c, r[c], width_or_zero(a, c), h), l as int),
                            plain_padding(configs@, c),
                        ) + seq![v],
                ),
                line@ == start + concat_all(parts.take(c as int)),
            decreases stacked@.len() - c,
        {
            assert(parts.take(c + 1).drop_last() =~= parts.take(c as int));
            let cfg = column_at(configs, c);
            assert(cfg.padding == plain_padding(configs@, c as int));
            let s_c = &stacked[c];
            let content = if l < s_c.len() {
                assert(views(s_c@)[l as int] == s_c@[l as int]@);
                s_c[l].clone()
            } else {
                String::new()
            };
            assert(content@ == line_or_empty(st[c as int], l as int));
            let padded = apply_padding(content.as_str(), cfg.padding);
            push_str(&mut line, padded.as_str());
            push_char(&mut line, v);
            c = c + 1;
        }
        assert(parts.take(c as int) =~= parts);
        push_char(&mut line, '\n');
        assert(line@ == lines_text[l as int]);
        push_str(&mut out, line.as_str());
        l = l + 1;
    }
    assert(lines_text.take(l as int) =~= lines_text);
    out
}

/// Draws a table whose cells are cut, wrapped (or split at line feeds) and placed
/// vertically as their columns say (see `wrapped_table`); rows of different lengths are
/// refused (see `validate_table_data`).
#[verifier::spinoff_prover]
pub fn render_table_with_vertical_alignment(
    data: &TableData,
    border: &BorderChars,
    options: &RenderOptions,
    column_configs: &[ColumnConfig],
) -> (res: Result<String, String>)
    requires
        wrapped_cells_ok(table_view(data.rows@), column_configs@),
    ensures
        match first_bad_row(table_view(data.rows@), 0, column_count_of(table_view(data.rows@))) {
            None => res matches Ok(s) && s@ == wrapped_table(
                table_view(data.rows@),
                *border,
                *options,
                column_configs@,
            ),
            Some(i) => res matches Err(m) && m@ == row_length_msg(
                i,
                table_view(data.rows@)[i as int].len(),
                column_count_of(table_view(data.rows@)),
            ),
        },
{
    match validate_table_data(data) {
        Ok(_) => {},
        Err(e) => {
            return Err(e);
        },
    }
    let ghost t = table_view(data.rows@);
    if data.rows.len() == 0 {
        return Ok(String::new());
    }
    proof {
        lemma_no_bad_row(t, 0, column_count_of(t));
    }
    let auto = calculate_column_widths(data);
    let ghost a = auto@.map_values(|w: usize| w as nat);
    assert(a =~= byte_column_widths(t));
    let mut widths: Vec<usize> = Vec::new();
    let mut i: usize = 0;
    while i < auto.len()
        invariant
            i <= auto@.len(),
            a == auto@.map_values(|w: usize| w as nat),
            widths@.len() == i,
            forall|k: int| 0 <= k < i ==> #[trigger] widths@[k] as nat == widths_for(column_configs@, a)[k],
        decreases auto@.len() - i,
    {
        let cfg = column_at(column_configs, i);
        let cw: usize = match cfg.width {
            Some(w) => w,
            None => auto[i],
        };
        assert(cw as nat == plain_content_width(column_configs@, i as int, a[i as int]));
        widths.push(cw.saturating_add(cfg.padding.left).saturating_add(cfg.padding.right));
        i = i + 1;
    }
    let ghost w = widths_for(column_configs@, a);
    assert(widths@.map_values(|x: usize| x as nat) =~= w);
    let mut result = String::new();
    if options.show_top_border {
        let line = plain_line(border.top_left, border.top_junction, border.top_right, border.horizontal, &widths);
        push_str(&mut result, line.as_str());
    }
    let ghost top = result@;
    let ghost body = Seq::new(
        t.len(),
        |r: int|
            wrapped_row(t[r], column_configs@, a, border.vertical) + if options.show_row_separators && r
                < t.len() - 1 {
                plain_line_spec('├', '┼', '┤', border.horizontal, w)
            } else {
                Seq::empty()
            },
    );
    let mut r: usize = 0;
    while r < data.rows.len()
        invariant
            r <= data.rows@.len(),
            t == table_view(data.rows@),
            t.len() > 0,
            forall|k: int| 0 <= k < t.len() ==> #[trigger] t[k].len() == column_count_of(t),
            auto@.len() == column_count_of(t),
            a == auto@.map_values(|w: usize| w as nat),
            widths@.map_values(|x: usize| x as nat) == w,
            w == widths_for(column_configs@, a),
            wrapped_cells_ok(t, column_configs@),
            body == Seq::new(
                t.len(),
                |r: int|
                    wrapped_row(t[r], column_configs@, a, border.vertical) + if options.show_row_separators
                        && r < t.len() - 1 {
                        plain_line_spec('├', '┼', '┤', border.horizontal, w)
                    } else {
                        Seq::empty()
                    },
            ),
            result@ == top + concat_all(body.take(r as int)),
        decreases data.rows@.len() - r,
    {
        assert(body.take(r + 1).drop_last() =~= body.take(r as int));
        assert(t[r as int] == views(data.rows@[r as int]@));
        proof {
            assert forall|c: int| 0 <= c < data.rows@[r as int]@.len() && c < column_configs@.len() implies truncate_text_ok(
                #[trigger] data.rows@[r as int]@[c]@,
                column_configs@[c].truncation,
            ) by {
                assert(t[r as int][c] == data.rows@[r as int]@[c]@);
            }
        }
        let text = draw_wrapped_row(&data.rows[r], column_configs, &auto, border.vertical);
        push_str(&mut result, text.as_str());
        if options.show_row_separators && r < data.rows.len() - 1 {
            let line = plain_line('├', '┼', '┤', border.horizontal, &widths);
            push_str(&mut result, line.as_str());
        }
        r = r + 1;
    }
    assert(body.take(r as int) =~= body);
    if options.show_bottom_border {
        let line = plain_line(
            border.bottom_left,
            border.bottom_junction,
            border.bottom_right,
            border.horizontal,
            &widths,
        );
        push_str(&mut result, line.as_str());
    }
    assert(result@ =~= wrapped_table(t, *border, *options, column_configs@));
    Ok(result)
}

} // verus!
