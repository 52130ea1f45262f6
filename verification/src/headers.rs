use crate::alignment::{align_text, align_text_spec, is_default_column, Alignment, ColumnConfig};
use crate::border::BorderChars;
use crate::padding::{apply_padding, apply_padding_spec, Padding};
use crate::renderer::RenderOptions;
use crate::table_data::{
    byte_column_widths, calculate_column_widths, column_count_of, first_bad_row, plain_line, plain_line_spec,
    row_length_msg, validate_table_data, widths_for, TableData,
};
use crate::text::{concat_all, push_char, push_str, views};
use crate::truncation::{truncate_parts, truncate_parts_ok, truncate_text, TruncationConfig};
use crate::utils::formatting::table_view;
use vstd::prelude::*;

verus! {

/// Which leading rows of a table are headers and how they are drawn.
#[derive(Debug, Clone)]
pub struct HeaderConfig {
    pub has_header: bool,
    pub header_row_count: usize,
    pub header_column_configs: Vec<ColumnConfig>,
    pub separator_border: Option<BorderChars>,
}

impl Default for HeaderConfig {
    fn default() -> (res: Self)
        ensures
            !res.has_header,
            res.header_row_count == 1,
            res.header_column_configs@.len() == 0,
            res.separator_border is None,
    {
        HeaderConfig { has_header: false, header_row_count: 1, header_column_configs: Vec::new(), separator_border: None }
    }
}

impl HeaderConfig {
    /// No header row.
    pub fn new() -> (res: Self)
        ensures
            !res.has_header,
            res.header_row_count == 1,
            res.header_column_configs@.len() == 0,
            res.separator_border is None,
    {
        Self::default()
    }

    /// The same settings with a header.
    pub fn with_header(self) -> (res: Self)
        ensures
            res == (HeaderConfig { has_header: true, ..self }),
    {
        HeaderConfig { has_header: true, ..self }
    }

    /// The same settings with `count` header rows (at least 1).
    pub fn with_header_rows(self, count: usize) -> (res: Self)
        ensures
            res == (HeaderConfig { has_header: true, header_row_count: if count == 0 { 1 } else { count }, ..self }),
    {
        HeaderConfig { has_header: true, header_row_count: if count == 0 { 1 } else { count }, ..self }
    }

    /// The same settings with column settings for the header rows.
    pub fn with_header_column_configs(self, configs: Vec<ColumnConfig>) -> (res: Self)
        ensures
            res == (HeaderConfig { header_column_configs: configs, ..self }),
    {
        HeaderConfig { header_column_configs: configs, ..self }
    }

    /// The same settings with a line of other border characters below the header.
    pub fn with_separator_border(self, border: BorderChars) -> (res: Self)
        ensures
            res == (HeaderConfig { separator_border: Some(border), ..self }),
    {
        HeaderConfig { separator_border: Some(border), ..self }
    }
}

/// How a cell is laid out: its given width, alignment, padding and truncation.
pub struct Layout {
    pub width: Option<usize>,
    pub alignment: Alignment,
    pub padding: Padding,
    pub max: Option<usize>,
    pub ellipsis: Seq<char>,
    pub truncate_start: bool,
}

/// The layout of a column's settings.
pub open spec fn layout_of(c: ColumnConfig) -> Layout {
    Layout {
        width: c.width,
        alignment: c.alignment,
        padding: c.padding,
        max: c.truncation.max_width,
        ellipsis: c.truncation.ellipsis@,
        truncate_start: c.truncation.truncate_start,
    }
}

/// The layout of the default column settings.
pub open spec fn default_layout() -> Layout {
    Layout {
        width: None,
        alignment: Alignment::Left,
        padding: Padding { left: 1, right: 1 },
        max: None,
        ellipsis: "..."@,
        truncate_start: false,
    }
}

/// The layout of a cell in column `i`: the header settings when there are any (falling back
/// to the data settings past their end), else the data settings, else the defaults.
pub open spec fn cell_layout(h: Seq<ColumnConfig>, d: Seq<ColumnConfig>, i: int) -> Layout {
    if h.len() > 0 && 0 <= i < h.len() {
        layout_of(h[i])
    } else if 0 <= i < d.len() {
        layout_of(d[i])
    } else {
        default_layout()
    }
}

/// The content width of a cell in a column `wi` wide: its given width, or the column's
/// width less its padding.
pub open spec fn content_of(l: Layout, wi: nat) -> nat {
    match l.width {
        Some(x) => x as nat,
        None => (wi - (l.padding.left + l.padding.right)) as nat,
    }
}

/// Whether a cell can be drawn: its truncation can be done, its padding adds up, and a
/// column without a given width is at least as wide as the padding.
pub open spec fn cell_ok(l: Layout, cell: Seq<char>, wi: nat) -> bool {
    &&& truncate_parts_ok(cell, l.max, l.ellipsis, l.truncate_start)
    &&& l.padding.left + l.padding.right <= usize::MAX
    &&& (l.width is None ==> wi >= l.padding.left + l.padding.right)
}

/// A cell drawn: cut, placed in its content width, padded.
pub open spec fn hcell(l: Layout, cell: Seq<char>, wi: nat) -> Seq<char> {
    apply_padding_spec(
        align_text_spec(truncate_parts(cell, l.max, l.ellipsis, l.truncate_start), content_of(l, wi), l.alignment),
        l.padding,
    )
}

/// The width of column `i` (0 past the end).
pub open spec fn width_of(w: Seq<nat>, i: int) -> nat {
    if 0 <= i < w.len() {
        w[i]
    } else {
        0
    }
}

/// A row drawn: the vertical character, each cell followed by it, a line feed.
pub open spec fn hrow(row: Seq<Seq<char>>, w: Seq<nat>, h: Seq<ColumnConfig>, d: Seq<ColumnConfig>, v: char) -> Seq<char> {
    seq![v] + concat_all(
        Seq::new(row.len(), |i: int| hcell(cell_layout(h, d, i), row[i], width_of(w, i)) + seq![v]),
    ) + seq!['\n']
}

/// Whether every cell of a row can be drawn.
pub open spec fn row_ok(row: Seq<Seq<char>>, w: Seq<nat>, h: Seq<ColumnConfig>, d: Seq<ColumnConfig>) -> bool {
    forall|i: int| 0 <= i < row.len() ==> cell_ok(cell_layout(h, d, i), #[trigger] row[i], width_of(w, i))
}

/// A line between rows with the horizontal character `h`.
pub open spec fn mid_line(h: char, w: Seq<nat>) -> Seq<char> {
    plain_line_spec('├', '┼', '┤', h, w)
}

/// Whether the header rows are drawn as such: a header is asked for and the table has that
/// many rows.
pub open spec fn header_drawn(t: Seq<Seq<Seq<char>>>, hc: HeaderConfig) -> bool {
    hc.has_header && hc.header_row_count <= t.len()
}

/// The drawn widths of the columns: the data settings' content widths (or the longest cells
/// in bytes) and padding.
pub open spec fn header_widths(t: Seq<Seq<Seq<char>>>, d: Seq<ColumnConfig>) -> Seq<nat> {
    widths_for(d, byte_column_widths(t))
}

/// Whether every cell can be drawn: header rows with the header settings, the others with
/// the data settings.
pub open spec fn headers_ok(t: Seq<Seq<Seq<char>>>, d: Seq<ColumnConfig>, hc: HeaderConfig) -> bool {
    forall|r: int| 0 <= r < t.len() ==> row_ok(
        #[trigger] t[r],
        header_widths(t, d),
        if header_drawn(t, hc) && r < hc.header_row_count { hc.header_column_configs@ } else { Seq::empty() },
        d,
    )
}

/// The data rows from `start` on, each followed (but the last of the table) by a line when
/// lines between rows are shown.
pub open spec fn data_rows(t: Seq<Seq<Seq<char>>>, start: int, w: Seq<nat>, d: Seq<ColumnConfig>, b: BorderChars, o: RenderOptions) -> Seq<
    char,
> {
    concat_all(
        Seq::new(
            (t.len() - start) as nat,
            |k: int|
                hrow(t[start + k], w, Seq::empty(), d, b.vertical) + if o.show_row_separators && start + k < t.len()
                    - 1 {
                    mid_line(b.horizontal, w)
                } else {
                    Seq::empty()
                },
        ),
    )
}

/// What `render_table_with_headers` gives for a valid table: nothing for no rows; else the
/// top line when shown, the header rows (when drawn as such) with the header settings and a
/// line below them (in the separator's characters, or when lines between rows are shown),
/// the other rows, and the bottom line when shown.
pub open spec fn headers_spec(t: Seq<Seq<Seq<char>>>, b: BorderChars, o: RenderOptions, d: Seq<ColumnConfig>, hc: HeaderConfig) -> Seq<
    char,
> {
    let w = header_widths(t, d);
    if t.len() == 0 {
        Seq::empty()
    } else {
        let start: int = if header_drawn(t, hc) { hc.header_row_count as int } else { 0 };
        (if o.show_top_border {
            plain_line_spec(b.top_left, b.top_junction, b.top_right, b.horizontal, w)
        } else {
            Seq::empty()
        }) + (if header_drawn(t, hc) {
            concat_all(
                Seq::new(
                    hc.header_row_count as nat,
                    |k: int| hrow(t[k], w, hc.header_column_configs@, d, b.vertical),
                ),
            ) + match hc.separator_border {
                Some(sb) => mid_line(sb.horizontal, w),
                None => if o.show_row_separators {
                    mid_line(b.horizontal, w)
                } else {
                    Seq::empty()
                },
            }
        } else {
            Seq::empty()
        }) + data_rows(t, start, w, d, b, o) + if o.show_bottom_border {
            plain_line_spec(b.bottom_left, b.bottom_junction, b.bottom_right, b.horizontal, w)
        } else {
            Seq::empty()
        }
    }
}

/// The layout of a cell in column `i` as a column setting (see `cell_layout`).
fn layout_config(h: &[ColumnConfig], d: &[ColumnConfig], i: usize) -> (res: ColumnConfig)
    ensures
        layout_of(res) == cell_layout(h@, d@, i as int),
{
    if h.len() > 0 && i < h.len() {
        h[i].duplicate()
    } else if i < d.len() {
        d[i].duplicate()
    } else {
        ColumnConfig::default()
    }
}

/// One row drawn (see `hrow`).
fn render_table_row(row: &Vec<String>, widths: &Vec<usize>, h: &[ColumnConfig], d: &[ColumnConfig], border: &BorderChars) -> (res: String)
    requires
        row_ok(views(row@), widths@.map_values(|x: usize| x as nat), h@, d@),
    ensures
        res@ == hrow(views(row@), widths@.map_values(|x: usize| x as nat), h@, d@, border.vertical),
{
    let ghost w = widths@.map_values(|x: usize| x as nat);
    let ghost cells = Seq::new(
        views(row@).len(),
        |i: int| hcell(cell_layout(h@, d@, i), views(row@)[i], width_of(w, i)) + seq![border.vertical],
    );
    let mut result = String::new();
    push_char(&mut result, border.vertical);
    let ghost start = result@;
    let mut i: usize = 0;
    while i < row.len()
        invariant
            i <= row@.len(),
            w == widths@.map_values(|x: usize| x as nat),
            row_ok(views(row@), w, h@, d@),
            cells == Seq::new(
                views(row@).len(),
                |k: int| hcell(cell_layout(h@, d@, k), views(row@)[k], width_of(w, k)) + seq![border.vertical],
            ),
            result@ == start + concat_all(cells.take(i as int)),
        decreases row.len() - i,
    {
        let config = layout_config(h, d, i);
        let ghost l = cell_layout(h@, d@, i as int);
        assert(views(row@)[i as int] == row@[i as int]@);
        assert(cell_ok(l, views(row@)[i as int], width_of(w, i as int)));
        let wi: usize = if i < widths.len() { widths[i] } else { 0 };
        let content_width: usize = match config.width {
            Some(x) => x,
            None => wi - (config.padding.left + config.padding.right),
        };
        let truncated = truncate_text(row[i].as_str(), &config.truncation);
        let aligned = align_text(truncated.as_str(), content_width, config.alignment);
        let padded = apply_padding(aligned.as_str(), config.padding);
        let ghost before = result@;
        push_str(&mut result, padded.as_str());
        push_char(&mut result, border.vertical);
        assert(result@ == before + cells[i as int]);
        assert(cells.take(i + 1).drop_last() =~= cells.take(i as int));
        i = i + 1;
    }
    assert(cells.take(i as int) =~= cells);
    push_char(&mut result, '\n');
    result
}

/// The table drawn with its leading rows as headers (see `headers_spec`), after checking that
/// every row is as long as the first.
pub fn render_table_with_headers(
    data: &TableData,
    border: &BorderChars,
    options: &RenderOptions,
    column_configs: &[ColumnConfig],
    header_config: &HeaderConfig,
) -> (res: Result<String, String>)
    requires
        headers_ok(table_view(data.rows@), column_configs@, *header_config),
    ensures
        match first_bad_row(table_view(data.rows@), 0, column_count_of(table_view(data.rows@))) {
            Some(i) => res matches Err(m) && m@ == row_length_msg(
                i,
                table_view(data.rows@)[i as int].len(),
                column_count_of(table_view(data.rows@)),
            ),
            None => res matches Ok(s) && s@ == headers_spec(
                table_view(data.rows@),
                *border,
                *options,
                column_configs@,
                *header_config,
            ),
        },
{
    let ghost t = table_view(data.rows@);
    let ghost d = column_configs@;
    match validate_table_data(data) {
        Ok(_) => {},
        Err(e) => {
            return Err(e);
        },
    }
    if data.is_empty() {
        return Ok(String::new());
    }
    let auto = calculate_column_widths(data);
    let mut widths: Vec<usize> = Vec::new();
    let mut i: usize = 0;
    while i < auto.len()
        invariant
            i <= auto.len(),
            auto@.len() == byte_column_widths(t).len(),
            forall|c: int| 0 <= c < auto@.len() ==> auto@[c] == #[trigger] byte_column_widths(t)[c],
            d == column_configs@,
            widths@.len() == i,
            forall|k: int| 0 <= k < i ==> widths@[k] as nat == #[trigger] header_widths(t, d)[k],
        decreases auto.len() - i,
    {
        let w: usize = if i < column_configs.len() {
            let c = &column_configs[i];
            let cw = match c.width {
                Some(x) => x,
                None => auto[i],
            };
            cw.saturating_add(c.padding.left).saturating_add(c.padding.right)
        } else {
            auto[i].saturating_add(1).saturating_add(1)
        };
        widths.push(w);
        i = i + 1;
    }
    let ghost w = header_widths(t, d);
    assert(widths@.map_values(|x: usize| x as nat) =~= w);
    let mut result = String::new();
    if options.show_top_border {
        let line = plain_line(border.top_left, border.top_junction, border.top_right, border.horizontal, &widths);
        push_str(&mut result, line.as_str());
    }
    let ghost top = result@;
    let drawn = header_config.has_header && header_config.header_row_count <= data.rows.len();
    let start: usize = if drawn { header_config.header_row_count } else { 0 };
    let ghost empty_cfgs: Seq<ColumnConfig> = Seq::empty();
    if drawn {
        let ghost hrows = Seq::new(
            header_config.header_row_count as nat,
            |k: int| hrow(t[k], w, header_config.header_column_configs@, d, border.vertical),
        );
        let mut r: usize = 0;
        while r < header_config.header_row_count
            invariant
                r <= header_config.header_row_count <= data.rows@.len(),
                t == table_view(data.rows@),
                d == column_configs@,
                w == header_widths(t, d),
                widths@.map_values(|x: usize| x as nat) == w,
                drawn == header_drawn(t, *header_config),
                drawn,
                headers_ok(t, d, *header_config),
                hrows == Seq::new(
                    header_config.header_row_count as nat,
                    |k: int| hrow(t[k], w, header_config.header_column_configs@, d, border.vertical),
                ),
                result@ == top + concat_all(hrows.take(r as int)),
            decreases header_config.header_row_count - r,
        {
            assert(t[r as int] == views(data.rows@[r as int]@));
            assert(row_ok(t[r as int], w, header_config.header_column_configs@, d));
            let line = render_table_row(
                &data.rows[r],
                &widths,
                header_config.header_column_configs.as_slice(),
                column_configs,
                border,
            );
            push_str(&mut result, line.as_str());
            assert(hrows.take(r + 1).drop_last() =~= hrows.take(r as int));
            r = r + 1;
        }
        assert(hrows.take(r as int) =~= hrows);
        match &header_config.separator_border {
            Some(sb) => {
                let line = plain_line('├', '┼', '┤', sb.horizontal, &widths);
                push_str(&mut result, line.as_str());
            },
            None => {
                if options.show_row_separators {
                    let line = plain_line('├', '┼', '┤', border.horizontal, &widths);
                    push_str(&mut result, line.as_str());
                }
            },
        }
    }
    let ghost mid = result@;
    let ghost parts = Seq::new(
        (t.len() - start) as nat,
        |k: int|
            hrow(t[start + k], w, empty_cfgs, d, border.vertical) + if options.show_row_separators && start + k
                < t.len() - 1 {
                mid_line(border.horizontal, w)
            } else {
                Seq::empty()
            },
    );
    let n = data.rows.len();
    let mut r: usize = start;
    while r < n
        invariant
            start <= r <= n == data.rows@.len() == t.len(),
            t == table_view(data.rows@),
            d == column_configs@,
            w == header_widths(t, d),
            widths@.map_values(|x: usize| x as nat) == w,
            start == (if header_drawn(t, *header_config) { header_config.header_row_count as int } else { 0 }),
            headers_ok(t, d, *header_config),
            empty_cfgs == Seq::<ColumnConfig>::empty(),
            parts == Seq::new(
                (t.len() - start) as nat,
                |k: int|
                    hrow(t[start + k], w, empty_cfgs, d, border.vertical) + if options.show_row_separators && start
                        + k < t.len() - 1 {
                        mid_line(border.horizontal, w)
                    } else {
                        Seq::empty()
                    },
            ),
            result@ == mid + concat_all(parts.take(r - start)),
        decreases n - r,
    {
        assert(t[r as int] == views(data.rows@[r as int]@));
        assert(row_ok(t[r as int], w, empty_cfgs, d));
        let no_cfgs: Vec<ColumnConfig> = Vec::new();
        assert(no_cfgs@ =~= empty_cfgs);
        let line = render_table_row(&data.rows[r], &widths, no_cfgs.as_slice(), column_configs, border);
        let ghost before = result@;
        push_str(&mut result, line.as_str());
        if options.show_row_separators && r < n - 1 {
            let sep = plain_line('├', '┼', '┤', border.horizontal, &widths);
            push_str(&mut result, sep.as_str());
        }
        assert(result@ =~= before + parts[r - start]);
        assert(parts.take(r - start + 1).drop_last() =~= parts.take(r - start));
        r = r + 1;
    }
    assert(parts.take(r - start) =~= parts);
    if options.show_bottom_border {
        let line = plain_line(
            border.bottom_left,
            border.bottom_junction,
            border.bottom_right,
            border.horizontal,
            &widths,
        );
        push_str(&mut result, line.as_str());
    }
    Ok(result)
}

/// A header row drawn with a centred first column.
pub fn default_header_config() -> (res: HeaderConfig)
    ensures
        res.has_header,
        res.header_row_count == 1,
        res.header_column_configs@.len() == 1,
        res.header_column_configs@[0] == (ColumnConfig {
            alignment: Alignment::Center,
            ..res.header_column_configs@[0]
        }),
        is_default_column(ColumnConfig { alignment: Alignment::Left, ..res.header_column_configs@[0] }),
        res.separator_border is None,
{
    HeaderConfig::new().with_header().with_header_column_configs(vec![ColumnConfig::new().with_alignment(Alignment::Center)])
}

} // verus!
