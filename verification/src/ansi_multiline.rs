use crate::alignment::{is_default_column, ColumnConfig};
use crate::ansi::{ansi_display_width, ansi_pad_spec, ansi_pad_to_width, ansi_truncate_to_width, strip_from, trunc_from};
use crate::border::BorderChars;
use crate::padding::{apply_padding, apply_padding_spec};
use crate::pipeline::calculator::line_or_empty;
use crate::renderer::RenderOptions;
use crate::table_data::{
    column_count_of, first_bad_row, lemma_no_bad_row, plain_alignment, plain_content_width,
    plain_line, plain_line_spec, plain_padding, row_length_msg, validate_table_data, widths_for,
    TableData,
};
use crate::text::{concat2, concat_all, owned, push_char, push_str, views};
use crate::utils::ansi::byte_len;
use crate::utils::formatting::table_view;
use crate::utils::wrapping::{wrap_cell, wrap_spec};
use crate::wrapping::{WrapConfig, WrapMode};
use vstd::prelude::*;

verus! {

/// `auto[c]`, or 0 past its end.
pub open spec fn width_or_zero(auto: Seq<nat>, c: int) -> nat {
    if 0 <= c < auto.len() {
        auto[c]
    } else {
        0
    }
}

/// The display width of a cell: its bytes once escape sequences are removed.
pub open spec fn ansi_width(cell: Seq<char>) -> nat {
    byte_len(strip_from(cell, 0, false))
}

/// The widest cell (see `ansi_width`) in column `c` among the first `n` rows.
pub open spec fn ansi_column_max(t: Seq<Seq<Seq<char>>>, c: int, n: int) -> nat
    decreases n,
{
    if n <= 0 {
        0
    } else {
        let rest = ansi_column_max(t, c, n - 1);
        let w = if 0 <= c < t[n - 1].len() {
            ansi_width(t[n - 1][c])
        } else {
            0
        };
        if w > rest {
            w
        } else {
            rest
        }
    }
}

/// For each column of the first row, its widest cell once escape sequences are removed.
pub open spec fn ansi_widths(t: Seq<Seq<Seq<char>>>) -> Seq<nat> {
    Seq::new(column_count_of(t), |c: int| ansi_column_max(t, c, t.len() as int))
}

/// A cell cut by a column's limit keeping escape sequences: unchanged without a limit or
/// when it fits; with an empty ellipsis cut to the limit; else cut to the limit less the
/// ellipsis's bytes and the ellipsis added, or cut to the limit when the ellipsis does not
/// fit.
pub open spec fn ansi_cut(cell: Seq<char>, c: ColumnConfig) -> Seq<char> {
    match c.truncation.max_width {
        None => cell,
        Some(m) => if c.truncation.ellipsis@.len() == 0 {
            trunc_from(cell, 0, false, 0, m as nat)
        } else if ansi_width(cell) > m {
            let e = byte_len(c.truncation.ellipsis@);
            if m > e {
                trunc_from(cell, 0, false, 0, (m - e) as nat) + c.truncation.ellipsis@
            } else {
                trunc_from(cell, 0, false, 0, m as nat)
            }
        } else {
            cell
        },
    }
}

/// A text broken into lines keeping colours: one line without wrapping (or at width 0),
/// else as `wrap_spec` breaks it.
pub open spec fn ansi_wrap_lines(text: Seq<char>, w: WrapConfig) -> Seq<Seq<char>> {
    if w.mode == WrapMode::NoWrap || w.width == 0 {
        seq![text]
    } else {
        wrap_spec(text, w.width as nat, w.mode == WrapMode::Word)
    }
}

/// The lines of cell `c`: cut by its column's limit, then wrapped when the column wraps,
/// else one line.
pub open spec fn wrapped_lines(configs: Seq<ColumnConfig>, c: int, cell: Seq<char>) -> Seq<Seq<char>> {
    if 0 <= c < configs.len() {
        let cut = ansi_cut(cell, configs[c]);
        match configs[c].wrap_config {
            Some(w) => ansi_wrap_lines(cut, w),
            None => seq![cut],
        }
    } else {
        seq![cell]
    }
}

/// The number of lines of a row: the most lines of any of its cells, at least one.
pub open spec fn wrapped_height(ls: Seq<Seq<Seq<char>>>) -> nat
    decreases ls.len(),
{
    if ls.len() == 0 {
        1
    } else {
        let rest = wrapped_height(ls.drop_last());
        if ls.last().len() > rest {
            ls.last().len()
        } else {
            rest
        }
    }
}

/// A row drawn over as many lines as its tallest cell: on each line the vertical character,
/// each cell's line (empty below its lines) placed in the content width keeping escape
/// sequences, padded and followed by it, a line feed.
pub open spec fn wrapped_row(row: Seq<Seq<char>>, configs: Seq<ColumnConfig>, auto: Seq<nat>, v: char) -> Seq<char> {
    let ls = Seq::new(row.len(), |c: int| wrapped_lines(configs, c, row[c]));
    concat_all(
        Seq::new(
            wrapped_height(ls),
            |l: int|
                seq![v] + concat_all(
                    Seq::new(
                        row.len(),
                        |c: int|
                            apply_padding_spec(
                                ansi_pad_spec(
                                    line_or_empty(ls[c], l),
                                    plain_content_width(configs, c, width_or_zero(auto, c)),
                                    plain_alignment(configs, c),
                                ),
                                plain_padding(configs, c),
                            ) + seq![v],
                    ),
                ) + seq!['\n'],
        ),
    )
}

/// What `render_table_with_ansi_wrapping` gives for rows of equal length: nothing for no
/// rows; else the top line when shown, each row over its lines followed (but the last) by a
/// line between rows when shown, and the bottom line when shown. The content widths are the
/// widest cells without escape sequences where no width is given.
pub open spec fn wrapped_table(t: Seq<Seq<Seq<char>>>, b: BorderChars, o: RenderOptions, configs: Seq<ColumnConfig>) -> Seq<
    char,
> {
    let auto = ansi_widths(t);
    let w = widths_for(configs, auto);
    if t.len() == 0 {
        Seq::empty()
    } else {
        (if o.show_top_border {
            plain_line_spec(b.top_left, b.top_junction, b.top_right, b.horizontal, w)
        } else {
            Seq::empty()
        }) + concat_all(
            Seq::new(
                t.len(),
                |r: int|
                    wrapped_row(t[r], configs, auto, b.vertical) + if o.show_row_separators && r < t.len()
                        - 1 {
                        plain_line_spec('├', '┼', '┤', b.horizontal, w)
                    } else {
                        Seq::empty()
                    },
            ),
        ) + if o.show_bottom_border {
            plain_line_spec(b.bottom_left, b.bottom_junction, b.bottom_right, b.horizontal, w)
        } else {
            Seq::empty()
        }
    }
}

/// The settings of column `i`: its own, or the defaults past the given ones.
fn column_at(configs: &[ColumnConfig], i: usize) -> (res: ColumnConfig)
    ensures
        i < configs@.len() ==> res == configs@[i as int],
        i >= configs@.len() ==> is_default_column(res),
{
    if i < configs.len() {
        configs[i].duplicate()
    } else {
        ColumnConfig::default()
    }
}

/// A cell cut and wrapped (see `wrapped_lines`).
fn wrap_cell_lines(configs: &[ColumnConfig], c: usize, cell: &str) -> (res: Vec<String>)
    ensures
        views(res@) == wrapped_lines(configs@, c as int, cell@),
{
    if c >= configs.len() {
        let mut v: Vec<String> = Vec::new();
        v.push(owned(cell));
        assert(views(v@) =~= seq![cell@]);
        return v;
    }
    let cfg = &configs[c];
    let cut = match cfg.truncation.max_width {
        None => owned(cell),
        Some(m) => {
            if cfg.truncation.ellipsis.as_str().as_bytes().len() == 0 {
                ansi_truncate_to_width(cell, m)
            } else if ansi_display_width(cell) > m {
                let e = cfg.truncation.ellipsis.as_str().as_bytes().len();
                if m > e {
                    let head = ansi_truncate_to_width(cell, m - e);
                    concat2(head.as_str(), cfg.truncation.ellipsis.as_str())
                } else {
                    ansi_truncate_to_width(cell, m)
                }
            } else {
                owned(cell)
            }
        },
    };
    assert(cut@ == ansi_cut(cell@, configs@[c as int]));
    match &cfg.wrap_config {
        Some(w) => {
            if w.mode == WrapMode::NoWrap || w.width == 0 {
                let mut v: Vec<String> = Vec::new();
                v.push(cut);
                assert(views(v@) =~= seq![v@[0]@]);
                v
            } else {
                wrap_cell(cut.as_str(), w.width, w.mode == WrapMode::Word)
            }
        },
        None => {
            let mut v: Vec<String> = Vec::new();
            v.push(cut);
            assert(views(v@) =~= seq![v@[0]@]);
            v
        },
    }
}

/// For each column of the first row, its widest cell without escape sequences (see
/// `ansi_widths`).
#[verifier::spinoff_prover]
fn ansi_column_widths(data: &TableData) -> (res: Vec<usize>)
    requires
        forall|k: int| 0 <= k < data.rows@.len() ==> #[trigger] data.rows@[k]@.len() == column_count_of(
            table_view(data.rows@),
        ),
    ensures
        res@.map_values(|w: usize| w as nat) == ansi_widths(table_view(data.rows@)),
{
    let ghost t = table_view(data.rows@);
    let n = data.column_count();
    let mut widths: Vec<usize> = Vec::new();
    let mut i: usize = 0;
    while i < n
        invariant
            i <= n,
            widths@.len() == i,
            forall|c: int| 0 <= c < i ==> #[trigger] widths@[c] == 0,
        decreases n - i,
    {
        widths.push(0);
        i = i + 1;
    }
    let mut r: usize = 0;
    while r < data.rows.len()
        invariant
            r <= data.rows@.len(),
            t == table_view(data.rows@),
            n == column_count_of(t),
            forall|k: int| 0 <= k < data.rows@.len() ==> #[trigger] data.rows@[k]@.len() == n,
            widths@.len() == n,
            forall|c: int| 0 <= c < n ==> #[trigger] widths@[c] as nat == ansi_column_max(t, c, r as int),
        decreases data.rows@.len() - r,
    {
        assert(t[r as int] == views(data.rows@[r as int]@));
        let mut c: usize = 0;
        while c < n
            invariant
                c <= n,
                r < data.rows@.len(),
                data.rows@[r as int]@.len() == n,
                t == table_view(data.rows@),
                t[r as int] == views(data.rows@[r as int]@),
                widths@.len() == n,
                forall|k: int|
                    0 <= k < n ==> #[trigger] widths@[k] as nat == if k < c {
                        ansi_column_max(t, k, r + 1)
                    } else {
                        ansi_column_max(t, k, r as int)
                    },
            decreases n - c,
        {
            assert(t[r as int][c as int] == data.rows@[r as int]@[c as int]@);
            let w = ansi_display_width(data.rows[r][c].as_str());
            let cur = widths[c];
            if w > cur {
                widths.set(c, w);
            }
            c = c + 1;
        }
        r = r + 1;
    }
    assert(widths@.map_values(|w: usize| w as nat) =~= ansi_widths(t));
    widths
}

/// A row drawn over its lines (see `wrapped_row`).
#[verifier::spinoff_prover]
fn draw_wrapped_row(row: &Vec<String>, configs: &[ColumnConfig], auto: &Vec<usize>, v: char) -> (res: String)
    requires
        row@.len() <= auto@.len(),
    ensures
        res@ == wrapped_row(views(row@), configs@, auto@.map_values(|w: usize| w as nat), v),
{
    let ghost a = auto@.map_values(|w: usize| w as nat);
    let ghost r = views(row@);
    let ghost ls = Seq::new(r.len(), |c: int| wrapped_lines(configs@, c, r[c]));
    let mut cells: Vec<Vec<String>> = Vec::new();
    let mut height: usize = 1;
    let mut c: usize = 0;
    while c < row.len()
        invariant
            c <= row@.len() <= auto@.len(),
            r == views(row@),
            ls == Seq::new(r.len(), |c: int| wrapped_lines(configs@, c, r[c])),
            cells@.len() == c,
            forall|k: int| 0 <= k < c ==> views(#[trigger] cells@[k]@) == ls[k],
            height == wrapped_height(ls.take(c as int)),
        decreases row@.len() - c,
    {
        assert(r[c as int] == row@[c as int]@);
        let lines = wrap_cell_lines(configs, c, row[c].as_str());
        assert(ls.take(c + 1).drop_last() =~= ls.take(c as int));
        if lines.len() > height {
            height = lines.len();
        }
        cells.push(lines);
        c = c + 1;
    }
    assert(ls.take(c as int) =~= ls);
    let ghost lines_text = Seq::new(
        height as nat,
        |l: int|
            seq![v] + concat_all(
                Seq::new(
                    r.len(),
                    |c: int|
                        apply_padding_spec(
                            ansi_pad_spec(
                                line_or_empty(ls[c], l),
                                plain_content_width(configs@, c, width_or_zero(a, c)),
                                plain_alignment(configs@, c),
                            ),
                            plain_padding(configs@, c),
                        ) + seq![v],
                ),
            ) + seq!['\n'],
    );
    let mut out = String::new();
    let mut l: usize = 0;
    while l < height
        invariant
            l <= height,
            r == views(row@),
            row@.len() <= auto@.len(),
            a == auto@.map_values(|w: usize| w as nat),
            ls == Seq::new(r.len(), |c: int| wrapped_lines(configs@, c, r[c])),
            cells@.len() == r.len(),
            forall|k: int| 0 <= k < r.len() ==> views(#[trigger] cells@[k]@) == ls[k],
            lines_text == Seq::new(
                height as nat,
                |l: int|
                    seq![v] + concat_all(
                        Seq::new(
                            r.len(),
                            |c: int|
                                apply_padding_spec(
                                    ansi_pad_spec(
                                        line_or_empty(ls[c], l),
                                        plain_content_width(configs@, c, width_or_zero(a, c)),
                                        plain_alignment(configs@, c),
                                    ),
                                    plain_padding(configs@, c),
                                ) + seq![v],
                        ),
                    ) + seq!['\n'],
            ),
            out@ == concat_all(lines_text.take(l as int)),
        decreases height - l,
    {
        assert(lines_text.take(l + 1).drop_last() =~= lines_text.take(l as int));
        let ghost parts = Seq::new(
            r.len(),
            |c: int|
                apply_padding_spec(
                    ansi_pad_spec(
                        line_or_empty(ls[c], l as int),
                        plain_content_width(configs@, c, width_or_zero(a, c)),
                        plain_alignment(configs@, c),
                    ),
                    plain_padding(configs@, c),
                ) + seq![v],
        );
        let mut line = String::new();
        push_char(&mut line, v);
        let ghost start = line@;
        let mut c: usize = 0;
        while c < cells.len()
            invariant
                c <= cells@.len() == r.len() <= auto@.len(),
                a == auto@.map_values(|w: usize| w as nat),
                forall|k: int| 0 <= k < r.len() ==> views(#[trigger] cells@[k]@) == ls[k],
                parts == Seq::new(
                    r.len(),
                    |c: int|
                        apply_padding_spec(
                            ansi_pad_spec(
                                line_or_empty(ls[c], l as int),
                                plain_content_width(configs@, c, width_or_zero(a, c)),
                                plain_alignment(configs@, c),
                            ),
                            plain_padding(configs@, c),
                        ) + seq![v],
                ),
                line@ == start + concat_all(parts.take(c as int)),
            decreases cells@.len() - c,
        {
            assert(parts.take(c + 1).drop_last() =~= parts.take(c as int));
            let cfg = column_at(configs, c);
            let cw: usize = match cfg.width {
                Some(w) => w,
                None => auto[c],
            };
            assert(width_or_zero(a, c as int) == auto@[c as int] as nat);
            assert(cw as nat == plain_content_width(configs@, c as int, width_or_zero(a, c as int)));
            assert(cfg.padding == plain_padding(configs@, c as int));
            assert(cfg.alignment == plain_alignment(configs@, c as int));
            let ls_c = &cells[c];
            let content = if l < ls_c.len() {
                assert(views(ls_c@)[l as int] == ls_c@[l as int]@);
                ls_c[l].clone()
            } else {
                String::new()
            };
            assert(content@ == line_or_empty(ls[c as int], l as int));
            let aligned = ansi_pad_to_width(content.as_str(), cw, cfg.alignment);
            let padded = apply_padding(aligned.as_str(), cfg.padding);
            push_str(&mut line, padded.as_str());
            push_char(&mut line, v);
            c = c + 1;
        }
        assert(parts.take(c as int) =~= parts);
        push_char(&mut line, '\n');
        assert(line@ == lines_text[l as int]);
        push_str(&mut out, line.as_str());
        l = l + 1;
    }
    assert(lines_text.take(l as int) =~= lines_text);
    out
}

/// Draws a table whose cells are cut and wrapped as their columns say, escape sequences kept
/// and not counted in widths (see `wrapped_table`); rows of different lengths are refused
/// (see `validate_table_data`).
#[verifier::spinoff_prover]
pub fn render_table_with_ansi_wrapping(
    data: &TableData,
    border: &BorderChars,
    options: &RenderOptions,
    column_configs: &[ColumnConfig],
) -> (res: Result<String, String>)
    ensures
        match first_bad_row(table_view(data.rows@), 0, column_count_of(table_view(data.rows@))) {
            None => res matches Ok(s) && s@ == wrapped_table(
                table_view(data.rows@),
                *border,
                *options,
                column_configs@,
            ),
            Some(i) => res matches Err(m) && m@ == row_length_msg(
                i,
                table_view(data.rows@)[i as int].len(),
                column_count_of(table_view(data.rows@)),
            ),
        },
{
    match validate_table_data(data) {
        Ok(_) => {},
        Err(e) => {
            return Err(e);
        },
    }
    let ghost t = table_view(data.rows@);
    if data.rows.len() == 0 {
        return Ok(String::new());
    }
    proof {
        lemma_no_bad_row(t, 0, column_count_of(t));
    }
    proof {
        assert forall|k: int| 0 <= k < data.rows@.len() implies #[trigger] data.rows@[k]@.len() == column_count_of(t) by {
            assert(t[k] == views(data.rows@[k]@));
        }
    }
    let auto = ansi_column_widths(data);
    let ghost a = auto@.map_values(|w: usize| w as nat);
    let mut widths: Vec<usize> = Vec::new();
    let mut i: usize = 0;
    while i < auto.len()
        invariant
            i <= auto@.len(),
            a == auto@.map_values(|w: usize| w as nat),
            widths@.len() == i,
            forall|k: int| 0 <= k < i ==> #[trigger] widths@[k] as nat == widths_for(column_configs@, a)[k],
        decreases auto@.len() - i,
    {
        let cfg = column_at(column_configs, i);
        let cw: usize = match cfg.width {
            Some(w) => w,
            None => auto[i],
        };
        assert(cw as nat == plain_content_width(column_configs@, i as int, a[i as int]));
        widths.push(cw.saturating_add(cfg.padding.left).saturating_add(cfg.padding.right));
        i = i + 1;
    }
    let ghost w = widths_for(column_configs@, a);
    assert(widths@.map_values(|x: usize| x as nat) =~= w);
    let mut result = String::new();
    if options.show_top_border {
        let line = plain_line(border.top_left, border.top_junction, border.top_right, border.horizontal, &widths);
        push_str(&mut result, line.as_str());
    }
    let ghost top = result@;
    let ghost body = Seq::new(
        t.len(),
        |r: int|
            wrapped_row(t[r], column_configs@, a, border.vertical) + if options.show_row_separators && r
                < t.len() - 1 {
                plain_line_spec('├', '┼', '┤', border.horizontal, w)
            } else {
                Seq::empty()
            },
    );
    let mut r: usize = 0;
    while r < data.rows.len()
        invariant
            r <= data.rows@.len(),
            t == table_view(data.rows@),
            t.len() > 0,
            forall|k: int| 0 <= k < t.len() ==> #[trigger] t[k].len() == column_count_of(t),
            auto@.len() == column_count_of(t),
            a == auto@.map_values(|w: usize| w as nat),
            widths@.map_values(|x: usize| x as nat) == w,
            w == widths_for(column_configs@, a),
            body == Seq::new(
                t.len(),
                |r: int|
                    wrapped_row(t[r], column_configs@, a, border.vertical) + if options.show_row_separators
                        && r < t.len() - 1 {
                        plain_line_spec('├', '┼', '┤', border.horizontal, w)
                    } else {
                        Seq::empty()
                    },
            ),
            result@ == top + concat_all(body.take(r as int)),
        decreases data.rows@.len() - r,
    {
        assert(body.take(r + 1).drop_last() =~= body.take(r as int));
        assert(t[r as int] == views(data.rows@[r as int]@));
        let text = draw_wrapped_row(&data.rows[r], column_configs, &auto, border.vertical);
        push_str(&mut result, text.as_str());
        if options.show_row_separators && r < data.rows.len() - 1 {
            let line = plain_line('├', '┼', '┤', border.horizontal, &widths);
            push_str(&mut result, line.as_str());
        }
        r = r + 1;
    }
    assert(body.take(r as int) =~= body);
    if options.show_bottom_border {
        let line = plain_line(
            border.bottom_left,
            border.bottom_junction,
            border.bottom_right,
            border.horizontal,
            &widths,
        );
        push_str(&mut result, line.as_str());
    }
    assert(result@ =~= wrapped_table(t, *border, *options, column_configs@));
    Ok(result)
}

} // verus!
