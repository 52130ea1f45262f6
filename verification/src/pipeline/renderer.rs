use crate::pipeline::calculator::{
    calculate_output_column_widths, calculate_row_heights, column_config_at, column_config_of,
    content_width, groups_view, map_data_using_row_heights, mapped_spec, nats,
    output_widths_spec, row_heights_spec, width_at,
};
use crate::pipeline::processor::{
    align_cell_spec, align_ok, align_table_data_with_widths, align_widths_spec,
    pad_cell_width_spec, pad_table_data_with_widths, pad_widths_spec, truncate_table_data,
    truncate_table_spec,
};
use crate::text::{concat_all, join_seq, push_char, push_str, repeat_seq, repeat_str, views};
use crate::types::config::default_draw_horizontal_line;
use crate::types::{BorderConfig, Row, TableConfig};
use crate::utils::ansi::{calculate_display_width, justify_fits, justify_ok};
use crate::utils::formatting::{rows_fit_first, table_view};
use vstd::prelude::*;

verus! {

/// Which of a table's horizontal lines is drawn.
#[derive(Debug, Clone, Copy, PartialEq, Eq, Structural)]
pub enum BorderType {
    Top,
    Bottom,
    Join,
    Header,
}

/// The left end, right end, run and crossing pieces of a horizontal line.
pub open spec fn border_parts(b: BorderConfig, ty: BorderType) -> (
    Seq<char>,
    Seq<char>,
    Seq<char>,
    Seq<char>,
) {
    match ty {
        BorderType::Top => (b.top_left@, b.top_right@, b.top_body@, b.top_join@),
        BorderType::Bottom => (b.bottom_left@, b.bottom_right@, b.bottom_body@, b.bottom_join@),
        BorderType::Join => (b.join_left@, b.join_right@, b.join_body@, b.join_join@),
        BorderType::Header => (b.join_left@, b.join_right@, b.header_join@, b.join_join@),
    }
}

/// A horizontal line: its left end, for each column the run piece repeated as wide as the
/// column with the crossing piece between columns, and its right end.
pub open spec fn border_line_spec(widths: Seq<nat>, b: BorderConfig, ty: BorderType) -> Seq<char> {
    let (l, r, body, j) = border_parts(b, ty);
    l + join_seq(Seq::new(widths.len(), |i: int| repeat_seq(body, widths[i])), j) + r
}

/// A line of cells between the body's left and right pieces, joined by its join piece.
pub open spec fn draw_row_spec(cells: Seq<Seq<char>>, b: BorderConfig) -> Seq<char> {
    b.body_left@ + join_seq(cells, b.body_join@) + b.body_right@
}

/// A line of cells between the border's body pieces.
pub fn draw_row(row: &[String], column_widths: &[usize], border: &BorderConfig) -> (res: String)
    ensures
        res@ == draw_row_spec(views(row@), *border),
{
    let mut result = String::new();
    push_str(&mut result, border.body_left.as_str());
    let ghost start = result@;
    let mut i: usize = 0;
    while i < row.len()
        invariant
            i <= row.len(),
            result@ == start + join_seq(views(row@).take(i as int), border.body_join@),
        decreases row.len() - i,
    {
        let ghost pre = views(row@).take(i as int);
        if i > 0 {
            push_str(&mut result, border.body_join.as_str());
        }
        push_str(&mut result, row[i].as_str());
        i = i + 1;
        assert(views(row@).take(i as int).drop_last() =~= pre);
        assert(result@ =~= start + join_seq(views(row@).take(i as int), border.body_join@));
    }
    assert(views(row@).take(i as int) =~= views(row@));
    push_str(&mut result, border.body_right.as_str());
    result
}

/// A horizontal line over columns of the given widths (see `border_line_spec`).
pub fn draw_border_line(column_widths: &[usize], border: &BorderConfig, border_type: BorderType) -> (res:
    String)
    ensures
        res@ == border_line_spec(nats(column_widths@), *border, border_type),
{
    let (left, right, body, join) = match border_type {
        BorderType::Top => (&border.top_left, &border.top_right, &border.top_body, &border.top_join),
        BorderType::Bottom => (
            &border.bottom_left,
            &border.bottom_right,
            &border.bottom_body,
            &border.bottom_join,
        ),
        BorderType::Join => (
            &border.join_left,
            &border.join_right,
            &border.join_body,
            &border.join_join,
        ),
        BorderType::Header => (
            &border.join_left,
            &border.join_right,
            &border.header_join,
            &border.join_join,
        ),
    };
    let ghost runs = Seq::new(
        column_widths@.len(),
        |i: int| repeat_seq(body@, nats(column_widths@)[i]),
    );
    let mut result = String::new();
    push_str(&mut result, left.as_str());
    let ghost start = result@;
    let mut i: usize = 0;
    while i < column_widths.len()
        invariant
            i <= column_widths.len(),
            runs.len() == column_widths@.len(),
            forall|k: int| 0 <= k < runs.len() ==> #[trigger] runs[k] == repeat_seq(body@, column_widths@[k] as nat),
            result@ == start + join_seq(runs.take(i as int), join@),
        decreases column_widths.len() - i,
    {
        let ghost pre = runs.take(i as int);
        if i > 0 {
            push_str(&mut result, join.as_str());
        }
        let run = repeat_str(body.as_str(), column_widths[i]);
        assert(run@ == runs[i as int]);
        push_str(&mut result, run.as_str());
        i = i + 1;
        assert(runs.take(i as int).drop_last() =~= pre);
        assert(result@ =~= start + join_seq(runs.take(i as int), join@));
    }
    assert(runs.take(i as int) =~= runs);
    push_str(&mut result, right.as_str());
    result
}

/// A cell placed in its column and padded to the column's drawn width.
pub open spec fn processed_cell(cell: Seq<char>, config: TableConfig, widths: Seq<nat>, c: int) -> Seq<
    char,
> {
    let cc = column_config_at(config, c);
    pad_cell_width_spec(align_cell_spec(cell, cc, width_at(widths, c)), cc, width_at(widths, c))
}

/// Every line of every row group with its cells placed and padded.
pub open spec fn processed_spec(m: Seq<Seq<Seq<Seq<char>>>>, config: TableConfig, widths: Seq<nat>) -> Seq<
    Seq<Seq<Seq<char>>>,
> {
    Seq::new(
        m.len(),
        |i: int|
            Seq::new(
                m[i].len(),
                |j: int| Seq::new(m[i][j].len(), |c: int| processed_cell(m[i][j][c], config, widths, c)),
            ),
    )
}

/// Whether every cell of every line can be placed in its column.
pub open spec fn processed_ok(m: Seq<Seq<Seq<Seq<char>>>>, config: TableConfig, widths: Seq<nat>) -> bool {
    forall|i: int, j: int, c: int|
        0 <= i < m.len() && 0 <= j < m[i].len() && 0 <= c < m[i][j].len() ==> align_ok(
            #[trigger] m[i][j][c],
            column_config_at(config, c),
            width_at(widths, c),
        )
}

/// Every line of every row group with its cells placed and padded to the drawn widths.
pub fn process_mapped_data(mapped_data: &[Vec<Row>], config: &TableConfig, column_widths: &[usize]) -> (res:
    Vec<Vec<Row>>)
    requires
        processed_ok(groups_view(mapped_data@), *config, nats(column_widths@)),
    ensures
        groups_view(res@) == processed_spec(
            groups_view(mapped_data@),
            *config,
            nats(column_widths@),
        ),
{
    let ghost m = groups_view(mapped_data@);
    let ghost w = nats(column_widths@);
    let ghost p = processed_spec(m, *config, w);
    let mut result: Vec<Vec<Row>> = Vec::new();
    let mut i: usize = 0;
    while i < mapped_data.len()
        invariant
            i <= mapped_data.len(),
            m == groups_view(mapped_data@),
            w == nats(column_widths@),
            p == processed_spec(m, *config, w),
            processed_ok(m, *config, w),
            groups_view(result@) == p.take(i as int),
        decreases mapped_data.len() - i,
    {
        let group = &mapped_data[i];
        assert(m[i as int] == table_view(group@));
        let mut out: Vec<Row> = Vec::new();
        let mut j: usize = 0;
        while j < group.len()
            invariant
                i < mapped_data.len(),
                group == &mapped_data@[i as int],
                m == groups_view(mapped_data@),
                m[i as int] == table_view(group@),
                w == nats(column_widths@),
                p == processed_spec(m, *config, w),
                processed_ok(m, *config, w),
                j <= group.len(),
                table_view(out@) == p[i as int].take(j as int),
            decreases group.len() - j,
        {
            let sub_row = crate::text::copy_strings(&group[j]);
            assert(m[i as int][j as int] == views(group@[j as int]@));
            let one: Vec<Row> = vec![sub_row];
            assert(table_view(one@) =~= seq![m[i as int][j as int]]);
            let aligned = align_table_data_with_widths(one.as_slice(), config, column_widths);
            let padded = pad_table_data_with_widths(aligned.as_slice(), config, column_widths);
            assert(table_view(aligned@).len() == 1);
            assert(table_view(padded@).len() == 1);
            assert(padded@.len() == 1);
            assert(table_view(padded@)[0] =~= p[i as int][j as int]);
            assert(table_view(padded@)[0] == views(padded@[0]@));
            let first = crate::text::copy_strings(&padded[0]);
            assert(views(first@) == table_view(padded@)[0]);
            let ghost before = table_view(out@);
            out.push(first);
            assert(table_view(out@) =~= before.push(views(first@)));
            assert(table_view(out@) =~= p[i as int].take(j + 1));
            j = j + 1;
        }
        assert(table_view(out@) =~= p[i as int]);
        let ghost before = groups_view(result@);
        let ghost o = table_view(out@);
        result.push(out);
        assert(groups_view(result@) =~= before.push(o));
        assert(groups_view(result@) =~= p.take(i + 1));
        i = i + 1;
    }
    assert(p.take(i as int) =~= p);
    result
}

/// The border of the header, or the table's own when it has none.
pub open spec fn header_border(config: TableConfig) -> BorderConfig {
    match config.header {
        Some(h) => h.border,
        None => config.border,
    }
}

/// The text of row group `i`: its lines, each drawn with the header's border for the header
/// row and the table's otherwise and ended by a line feed, then, except after the last group,
/// the header line below the header row or a join line.
pub open spec fn group_text(p: Seq<Seq<Seq<Seq<char>>>>, i: int, config: TableConfig, widths: Seq<nat>) -> Seq<
    char,
> {
    let is_header = config.header is Some && i == 0;
    let b = if is_header {
        header_border(config)
    } else {
        config.border
    };
    let lines = concat_all(Seq::new(p[i].len(), |j: int| draw_row_spec(p[i][j], b) + seq!['\n']));
    let sep = if i < p.len() - 1 {
        if is_header {
            border_line_spec(widths, header_border(config), BorderType::Header) + seq!['\n']
        } else {
            border_line_spec(widths, config.border, BorderType::Join) + seq!['\n']
        }
    } else {
        Seq::empty()
    };
    lines + sep
}

/// The whole table: the top line, the row groups, the bottom line (no line feed after it).
pub open spec fn table_text(p: Seq<Seq<Seq<Seq<char>>>>, config: TableConfig, widths: Seq<nat>) -> Seq<
    char,
> {
    border_line_spec(widths, header_border(config), BorderType::Top) + seq!['\n'] + concat_all(
        Seq::new(p.len(), |i: int| group_text(p, i, config, widths)),
    ) + border_line_spec(widths, config.border, BorderType::Bottom)
}

/// The drawn widths of the table after truncation.
pub open spec fn drawn_widths(t: Seq<Seq<Seq<char>>>, config: TableConfig) -> Seq<nat> {
    output_widths_spec(truncate_table_spec(t, config), config)
}

/// The row groups of the table after truncation, split into lines by the row heights.
pub open spec fn drawn_lines(t: Seq<Seq<Seq<char>>>, config: TableConfig) -> Seq<Seq<Seq<Seq<char>>>> {
    let tr = truncate_table_spec(t, config);
    mapped_spec(tr, row_heights_spec(tr, config), config)
}

/// What `draw_table` gives: nothing for no rows; else the cells truncated, the columns sized,
/// the rows split into lines, the cells placed and padded, and the lines drawn between the
/// borders.
pub open spec fn draw_table_spec(t: Seq<Seq<Seq<char>>>, config: TableConfig) -> Seq<char> {
    if t.len() == 0 {
        Seq::empty()
    } else {
        let w = drawn_widths(t, config);
        table_text(processed_spec(drawn_lines(t, config), config, w), config, w)
    }
}

/// Whether a table can be drawn: no row is longer than the first, and every cell line whose
/// words are spread out fits its column.
pub open spec fn draw_ok(t: Seq<Seq<Seq<char>>>, config: TableConfig) -> bool {
    rows_fit_first(t) && processed_ok(drawn_lines(t, config), config, drawn_widths(t, config))
}

/// Draws the table (see `draw_table_spec`).
pub fn draw_table(rows: &[Row], config: &TableConfig) -> (res: String)
    requires
        draw_ok(table_view(rows@), *config),
    ensures
        res@ == draw_table_spec(table_view(rows@), *config),
{
    if rows.len() == 0 {
        return String::new();
    }
    let ghost t = table_view(rows@);
    let truncated = truncate_table_data(rows, config);
    assert(rows_fit_first(table_view(truncated@))) by {
        assert forall|i: int| 0 <= i < table_view(truncated@).len() implies #[trigger] table_view(
            truncated@,
        )[i].len() <= table_view(truncated@)[0].len() by {
            assert(t[i].len() <= t[0].len());
        }
    }
    let column_widths = calculate_output_column_widths(truncated.as_slice(), config);
    let row_heights = calculate_row_heights(truncated.as_slice(), config);
    let mapped = map_data_using_row_heights(
        truncated.as_slice(),
        row_heights.as_slice(),
        config,
    );
    let processed = process_mapped_data(mapped.as_slice(), config, column_widths.as_slice());
    let ghost w = nats(column_widths@);
    let ghost p = groups_view(processed@);
    assert(p == processed_spec(drawn_lines(t, *config), *config, w));
    let top_border = match &config.header {
        Some(h) => &h.border,
        None => &config.border,
    };
    assert(*top_border == header_border(*config));
    let has_header = config.header.is_some();
    let mut result = String::new();
    if default_draw_horizontal_line(0, rows.len()) {
        let line = draw_border_line(column_widths.as_slice(), top_border, BorderType::Top);
        push_str(&mut result, line.as_str());
        push_char(&mut result, '\n');
    }
    let ghost start = result@;
    let ghost texts = Seq::new(p.len(), |i: int| group_text(p, i, *config, w));
    let n = processed.len();
    let mut row_idx: usize = 0;
    while row_idx < n
        invariant
            row_idx <= n == processed@.len(),
            n > 0,
            p == groups_view(processed@),
            w == nats(column_widths@),
            texts == Seq::new(p.len(), |i: int| group_text(p, i, *config, w)),
            *top_border == header_border(*config),
            has_header == config.header is Some,
            result@ == start + concat_all(texts.take(row_idx as int)),
        decreases n - row_idx,
    {
        let is_header_row = has_header && row_idx == 0;
        let border = if is_header_row {
            top_border
        } else {
            &config.border
        };
        let group = &processed[row_idx];
        assert(p[row_idx as int] == table_view(group@));
        let ghost lines = Seq::new(
            p[row_idx as int].len(),
            |j: int| draw_row_spec(p[row_idx as int][j], *border) + seq!['\n'],
        );
        let ghost before_group = result@;
        let mut j: usize = 0;
        while j < group.len()
            invariant
                j <= group.len(),
                row_idx < n == processed@.len(),
                group == &processed@[row_idx as int],
                p == groups_view(processed@),
                p[row_idx as int] == table_view(group@),
                lines == Seq::new(
                    p[row_idx as int].len(),
                    |k: int| draw_row_spec(p[row_idx as int][k], *border) + seq!['\n'],
                ),
                result@ == before_group + concat_all(lines.take(j as int)),
            decreases group.len() - j,
        {
            let line = draw_row(group[j].as_slice(), column_widths.as_slice(), border);
            assert(views(group@[j as int]@) == p[row_idx as int][j as int]);
            push_str(&mut result, line.as_str());
            push_char(&mut result, '\n');
            assert(lines.take(j + 1).drop_last() =~= lines.take(j as int));
            assert(result@ =~= before_group + concat_all(lines.take(j + 1)));
            j = j + 1;
        }
        assert(lines.take(j as int) =~= lines);
        let ghost before_sep = result@;
        if row_idx < n - 1 {
            if is_header_row {
                let line = draw_border_line(column_widths.as_slice(), top_border, BorderType::Header);
                push_str(&mut result, line.as_str());
                push_char(&mut result, '\n');
            } else if default_draw_horizontal_line(row_idx + 1, rows.len()) {
                let line = draw_border_line(column_widths.as_slice(), &config.border, BorderType::Join);
                push_str(&mut result, line.as_str());
                push_char(&mut result, '\n');
            }
        }
        assert(result@ =~= before_group + texts[row_idx as int]);
        assert(texts.take(row_idx + 1).drop_last() =~= texts.take(row_idx as int));
        row_idx = row_idx + 1;
    }
    assert(texts.take(row_idx as int) =~= texts);
    if default_draw_horizontal_line(rows.len(), rows.len()) {
        let line = draw_border_line(column_widths.as_slice(), &config.border, BorderType::Bottom);
        push_str(&mut result, line.as_str());
    }
    result
}

/// Whether a cell can be placed in a column drawn `total` wide (see `align_ok`).
pub fn align_cell_fits(cell: &str, config: &crate::types::ColumnConfig, total: usize) -> (res: bool)
    ensures
        res == align_ok(cell@, *config, total as nat),
{
    if total == 0 {
        return true;
    }
    let cw = total.saturating_sub(config.padding_left.saturating_add(config.padding_right));
    if config.alignment == crate::types::Alignment::Justify && calculate_display_width(cell) < cw {
        justify_fits(cell, cw)
    } else {
        true
    }
}

/// Whether no row is longer than the first.
pub fn rows_fit_first_row(rows: &[Row]) -> (res: bool)
    ensures
        res == rows_fit_first(table_view(rows@)),
{
    let mut i: usize = 0;
    while i < rows.len()
        invariant
            i <= rows.len(),
            forall|k: int| 0 <= k < i ==> #[trigger] rows@[k]@.len() <= rows@[0]@.len(),
        decreases rows.len() - i,
    {
        if rows[i].len() > rows[0].len() {
            assert(table_view(rows@)[i as int].len() > table_view(rows@)[0].len());
            return false;
        }
        i = i + 1;
    }
    proof {
        assert forall|k: int| 0 <= k < table_view(rows@).len() implies #[trigger] table_view(
            rows@,
        )[k].len() <= table_view(rows@)[0].len() by {
            assert(rows@[k]@.len() <= rows@[0]@.len());
        }
    }
    true
}

/// Draws the table when it can be drawn (see `draw_ok`), else `None`.
pub fn try_draw_table(rows: &[Row], config: &TableConfig) -> (res: Option<String>)
    ensures
        res is Some <==> draw_ok(table_view(rows@), *config),
        res matches Some(s) ==> s@ == draw_table_spec(table_view(rows@), *config),
{
    if !rows_fit_first_row(rows) {
        return None;
    }
    let ghost t = table_view(rows@);
    let truncated = truncate_table_data(rows, config);
    assert(rows_fit_first(table_view(truncated@))) by {
        assert forall|i: int| 0 <= i < table_view(truncated@).len() implies #[trigger] table_view(
            truncated@,
        )[i].len() <= table_view(truncated@)[0].len() by {
            assert(t[i].len() <= t[0].len());
        }
    }
    let column_widths = calculate_output_column_widths(truncated.as_slice(), config);
    let row_heights = calculate_row_heights(truncated.as_slice(), config);
    let mapped = map_data_using_row_heights(
        truncated.as_slice(),
        row_heights.as_slice(),
        config,
    );
    let ghost m = groups_view(mapped@);
    let ghost w = nats(column_widths@);
    assert(m == drawn_lines(t, *config));
    assert(w == drawn_widths(t, *config));
    let mut i: usize = 0;
    while i < mapped.len()
        invariant
            i <= mapped.len(),
            m == groups_view(mapped@),
            m == drawn_lines(t, *config),
            w == drawn_widths(t, *config),
            t == table_view(rows@),
            rows_fit_first(t),
            w == nats(column_widths@),
            forall|a: int, b: int, c: int|
                0 <= a < i && 0 <= b < m[a].len() && 0 <= c < m[a][b].len() ==> align_ok(
                    #[trigger] m[a][b][c],
                    column_config_at(*config, c),
                    width_at(w, c),
                ),
        decreases mapped.len() - i,
    {
        let group = &mapped[i];
        assert(m[i as int] == table_view(group@));
        let mut j: usize = 0;
        while j < group.len()
            invariant
                i < mapped.len(),
                group == &mapped@[i as int],
                m == groups_view(mapped@),
            m == drawn_lines(t, *config),
            w == drawn_widths(t, *config),
            t == table_view(rows@),
            rows_fit_first(t),
                m[i as int] == table_view(group@),
                w == nats(column_widths@),
                j <= group.len(),
                forall|a: int, b: int, c: int|
                    0 <= a < i && 0 <= b < m[a].len() && 0 <= c < m[a][b].len() ==> align_ok(
                        #[trigger] m[a][b][c],
                        column_config_at(*config, c),
                        width_at(w, c),
                    ),
                forall|b: int, c: int|
                    0 <= b < j && 0 <= c < m[i as int][b].len() ==> align_ok(
                        #[trigger] m[i as int][b][c],
                        column_config_at(*config, c),
                        width_at(w, c),
                    ),
            decreases group.len() - j,
        {
            let line = &group[j];
            assert(m[i as int][j as int] == views(line@));
            let mut c: usize = 0;
            while c < line.len()
                invariant
                    i < mapped.len(),
                    j < group.len(),
                    group == &mapped@[i as int],
                    line == &group@[j as int],
                    m == groups_view(mapped@),
            m == drawn_lines(t, *config),
            w == drawn_widths(t, *config),
            t == table_view(rows@),
            rows_fit_first(t),
                    m[i as int] == table_view(group@),
                    m[i as int][j as int] == views(line@),
                    w == nats(column_widths@),
                    c <= line.len(),
                    forall|a: int, b: int, k: int|
                        0 <= a < i && 0 <= b < m[a].len() && 0 <= k < m[a][b].len() ==> align_ok(
                            #[trigger] m[a][b][k],
                            column_config_at(*config, k),
                            width_at(w, k),
                        ),
                    forall|b: int, k: int|
                        0 <= b < j && 0 <= k < m[i as int][b].len() ==> align_ok(
                            #[trigger] m[i as int][b][k],
                            column_config_at(*config, k),
                            width_at(w, k),
                        ),
                    forall|k: int|
                        0 <= k < c ==> align_ok(
                            #[trigger] m[i as int][j as int][k],
                            column_config_at(*config, k),
                            width_at(w, k),
                        ),
                decreases line.len() - c,
            {
                let cc = column_config_of(config, c);
                let total: usize = if c < column_widths.len() {
                    column_widths[c]
                } else {
                    0
                };
                assert(views(line@)[c as int] == line@[c as int]@);
                if !align_cell_fits(line[c].as_str(), &cc, total) {
                    proof {
                        assert(!align_ok(m[i as int][j as int][c as int], column_config_at(*config, c as int), width_at(w, c as int)));
                    }
                    return None;
                }
                c = c + 1;
            }
            j = j + 1;
        }
        i = i + 1;
    }
    Some(draw_table(rows, config))
}


/// The lines of row group `i`, each drawn between the border's body pieces and ended by a
/// line feed.
pub open spec fn group_lines(p: Seq<Seq<Seq<Seq<char>>>>, i: int, b: BorderConfig) -> Seq<char> {
    concat_all(Seq::new(p[i].len(), |j: int| draw_row_spec(p[i][j], b) + seq!['\n']))
}

proof fn lemma_groups_joined(p: Seq<Seq<Seq<Seq<char>>>>, config: TableConfig, widths: Seq<nat>, s0: int, n: int)
    requires
        config.header is None || s0 >= 1,
        0 <= s0,
        1 <= n <= p.len() - s0,
    ensures
        concat_all(Seq::new((p.len() - s0) as nat, |i: int| group_text(p, i + s0, config, widths)).take(n)) == join_seq(
            Seq::new((p.len() - s0) as nat, |i: int| group_lines(p, i + s0, config.border)).take(n),
            border_line_spec(widths, config.border, BorderType::Join) + seq!['\n'],
        ) + if n < p.len() - s0 {
            border_line_spec(widths, config.border, BorderType::Join) + seq!['\n']
        } else {
            Seq::empty()
        },
    decreases n,
{
    let g = Seq::new((p.len() - s0) as nat, |i: int| group_text(p, i + s0, config, widths));
    let ls = Seq::new((p.len() - s0) as nat, |i: int| group_lines(p, i + s0, config.border));
    let j = border_line_spec(widths, config.border, BorderType::Join) + seq!['\n'];
    assert(g[n - 1] == group_text(p, n - 1 + s0, config, widths));
    assert(ls[n - 1] == group_lines(p, n - 1 + s0, config.border));
    if n == 1 {
        assert(g.take(1).drop_last() =~= Seq::<Seq<char>>::empty());
        assert(concat_all(Seq::<Seq<char>>::empty()) =~= Seq::<char>::empty());
        assert(ls.take(1).len() == 1);
        assert(ls.take(1)[0] == ls[0]);
        assert(concat_all(g.take(1)) =~= g[0]);
    } else {
        lemma_groups_joined(p, config, widths, s0, n - 1);
        assert(g.take(n).drop_last() =~= g.take(n - 1));
        assert(g.take(n).last() == g[n - 1]);
        assert(ls.take(n).drop_last() =~= ls.take(n - 1));
        assert(ls.take(n).last() == ls[n - 1]);
        assert(concat_all(g.take(n)) =~= join_seq(ls.take(n), j) + if n < p.len() - s0 {
            j
        } else {
            Seq::empty()
        });
    }
}

/// Without a header, a drawn table is its top line, then its row groups with exactly one
/// join line between each two consecutive groups (and none after the last), then its bottom
/// line.
pub proof fn law_join_between_groups(p: Seq<Seq<Seq<Seq<char>>>>, config: TableConfig, widths: Seq<nat>)
    requires
        config.header is None,
        p.len() > 0,
    ensures
        table_text(p, config, widths) == border_line_spec(widths, config.border, BorderType::Top) + seq!['\n']
            + join_seq(
            Seq::new(p.len(), |i: int| group_lines(p, i, config.border)),
            border_line_spec(widths, config.border, BorderType::Join) + seq!['\n'],
        ) + border_line_spec(widths, config.border, BorderType::Bottom),
{
    lemma_groups_joined(p, config, widths, 0, p.len() as int);
    let g = Seq::new(p.len(), |i: int| group_text(p, i, config, widths));
    let ls = Seq::new(p.len(), |i: int| group_lines(p, i, config.border));
    let g0 = Seq::new((p.len() - 0) as nat, |i: int| group_text(p, i + 0, config, widths));
    let ls0 = Seq::new((p.len() - 0) as nat, |i: int| group_lines(p, i + 0, config.border));
    assert(g0 =~= g);
    assert(ls0 =~= ls);
    assert(g.take(p.len() as int) =~= g);
    assert(ls.take(p.len() as int) =~= ls);
    assert(header_border(config) == config.border);
}

/// With a header, a drawn table of two or more row groups is its top line in the header's
/// border, the header group in that border, the header line, then the other groups with
/// exactly one join line between each two consecutive ones, then the bottom line.
pub proof fn law_header_then_joins(p: Seq<Seq<Seq<Seq<char>>>>, config: TableConfig, widths: Seq<nat>)
    requires
        config.header is Some,
        p.len() >= 2,
    ensures
        table_text(p, config, widths) == border_line_spec(widths, header_border(config), BorderType::Top) + seq!['\n']
            + group_lines(p, 0, header_border(config)) + border_line_spec(widths, header_border(config), BorderType::Header)
            + seq!['\n'] + join_seq(
            Seq::new((p.len() - 1) as nat, |i: int| group_lines(p, i + 1, config.border)),
            border_line_spec(widths, config.border, BorderType::Join) + seq!['\n'],
        ) + border_line_spec(widths, config.border, BorderType::Bottom),
{
    let n = p.len() as int;
    lemma_groups_joined(p, config, widths, 1, n - 1);
    let g = Seq::new(p.len(), |i: int| group_text(p, i, config, widths));
    let rest = Seq::new((p.len() - 1) as nat, |i: int| group_text(p, i + 1, config, widths));
    let ls = Seq::new((p.len() - 1) as nat, |i: int| group_lines(p, i + 1, config.border));
    assert(rest.take(n - 1) =~= rest);
    assert(ls.take(n - 1) =~= ls);
    assert(g =~= seq![g[0]] + rest);
    crate::text::lemma_concat_all_add(seq![g[0]], rest);
    crate::text::lemma_concat_all_one(g[0]);
    assert(g[0] == group_text(p, 0, config, widths));
}
} // verus!
