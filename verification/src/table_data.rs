use crate::alignment::{align_text, align_text_spec, Alignment, ColumnConfig};
use crate::border::BorderChars;
use crate::padding::{apply_padding, apply_padding_spec, Padding};
use crate::renderer::RenderOptions;
use crate::text::{
    char_run, concat2, concat_all, decimal, join_seq, owned, push_char, push_str, repeat_char,
    usize_to_string, views,
};
use crate::truncation::{truncate_text, truncate_text_ok, truncate_text_spec, TruncationConfig};
use crate::performance::{RenderCache, cache_ok};
use crate::types::Row;
use crate::utils::ansi::{byte_len, sat_add};
use crate::utils::formatting::table_view;
use vstd::prelude::*;

verus! {

/// The rows of a plain table.
#[derive(Debug, Clone)]
pub struct TableData {
    pub rows: Vec<Row>,
}

/// The number of columns of a table: the length of its first row.
pub open spec fn column_count_of(t: Seq<Seq<Seq<char>>>) -> nat {
    if t.len() > 0 {
        t[0].len()
    } else {
        0
    }
}

impl TableData {
    /// A table of the given rows.
    pub fn new(rows: Vec<Row>) -> (res: Self)
        ensures
            res.rows == rows,
    {
        TableData { rows }
    }

    /// The number of columns: the length of the first row (0 without rows).
    pub fn column_count(&self) -> (res: usize)
        ensures
            res == column_count_of(table_view(self.rows@)),
    {
        if self.rows.len() > 0 {
            self.rows[0].len()
        } else {
            0
        }
    }

    /// The number of rows.
    pub fn row_count(&self) -> (res: usize)
        ensures
            res == self.rows@.len(),
    {
        self.rows.len()
    }

    /// Whether there are no rows.
    pub fn is_empty(&self) -> (res: bool)
        ensures
            res == (self.rows@.len() == 0),
    {
        self.rows.len() == 0
    }
}

/// The message for row `i` having `n` cells where the first row has `m`.
pub open spec fn row_length_msg(i: nat, n: nat, m: nat) -> Seq<char> {
    "Row "@ + decimal(i) + " has "@ + decimal(n) + " columns, expected "@ + decimal(m) + " columns"@
}

/// The first row from `i` on whose length is not `m`.
pub open spec fn first_bad_row(t: Seq<Seq<Seq<char>>>, i: int, m: nat) -> Option<nat>
    decreases t.len() - i,
{
    if i < 0 || i >= t.len() {
        None
    } else if t[i].len() != m {
        Some(i as nat)
    } else {
        first_bad_row(t, i + 1, m)
    }
}

/// Checks that every row is as long as the first; the first that is not is named in the
/// message.
pub fn validate_table_data(data: &TableData) -> (res: Result<(), String>)
    ensures
        match first_bad_row(table_view(data.rows@), 0, column_count_of(table_view(data.rows@))) {
            None => res is Ok,
            Some(i) => res matches Err(m) && m@ == row_length_msg(
                i,
                table_view(data.rows@)[i as int].len(),
                column_count_of(table_view(data.rows@)),
            ),
        },
{
    let ghost t = table_view(data.rows@);
    let expected = data.column_count();
    let mut i: usize = 0;
    while i < data.rows.len()
        invariant
            i <= data.rows.len(),
            t == table_view(data.rows@),
            expected == column_count_of(t),
            first_bad_row(t, i as int, expected as nat) == first_bad_row(t, 0, expected as nat),
        decreases data.rows.len() - i,
    {
        let n = data.rows[i].len();
        assert(t[i as int].len() == n);
        if n != expected {
            let a = concat2("Row ", usize_to_string(i).as_str());
            let b = concat2(a.as_str(), " has ");
            let c = concat2(b.as_str(), usize_to_string(n).as_str());
            let d = concat2(c.as_str(), " columns, expected ");
            let e = concat2(d.as_str(), usize_to_string(expected).as_str());
            let f = concat2(e.as_str(), " columns");
            return Err(f);
        }
        i = i + 1;
    }
    Ok(())
}

/// The longest cell (in bytes) in column `c` among the first `n` rows.
pub open spec fn byte_column_max(t: Seq<Seq<Seq<char>>>, c: int, n: int) -> nat
    decreases n,
{
    if n <= 0 {
        0
    } else {
        let rest = byte_column_max(t, c, n - 1);
        let w = if c < t[n - 1].len() {
            byte_len(t[n - 1][c])
        } else {
            0
        };
        if w > rest {
            w
        } else {
            rest
        }
    }
}

/// For each column of the first row, its longest cell in bytes.
pub open spec fn byte_column_widths(t: Seq<Seq<Seq<char>>>) -> Seq<nat> {
    Seq::new(column_count_of(t), |c: int| byte_column_max(t, c, t.len() as int))
}

/// For each column, the length in bytes of its longest cell.
pub fn calculate_column_widths(data: &TableData) -> (res: Vec<usize>)
    ensures
        res@.len() == byte_column_widths(table_view(data.rows@)).len(),
        forall|c: int| 0 <= c < res@.len() ==> res@[c] == #[trigger] byte_column_widths(
            table_view(data.rows@),
        )[c],
{
    let ghost t = table_view(data.rows@);
    let n = data.column_count();
    let mut widths: Vec<usize> = Vec::new();
    let mut c: usize = 0;
    while c < n
        invariant
            c <= n == column_count_of(t),
            t == table_view(data.rows@),
            widths@.len() == c,
            forall|k: int| 0 <= k < c ==> widths@[k] == byte_column_max(t, k, t.len() as int),
        decreases n - c,
    {
        let mut best: usize = 0;
        let mut i: usize = 0;
        while i < data.rows.len()
            invariant
                i <= data.rows.len(),
                t == table_view(data.rows@),
                best == byte_column_max(t, c as int, i as int),
            decreases data.rows.len() - i,
        {
            let row = &data.rows[i];
            assert(t[i as int] == views(row@));
            if c < row.len() {
                let b = row[c].as_str().as_bytes().len();
                assert(views(row@)[c as int] == row@[c as int]@);
                if b > best {
                    best = b;
                }
            }
            i = i + 1;
        }
        widths.push(best);
        c = c + 1;
    }
    widths
}

/// The settings of column `i`, if given.
pub open spec fn given_config(configs: Seq<ColumnConfig>, i: int) -> Option<ColumnConfig> {
    if 0 <= i < configs.len() {
        Some(configs[i])
    } else {
        None
    }
}

/// The content width of column `i`: its given width, or `auto`.
pub open spec fn plain_content_width(configs: Seq<ColumnConfig>, i: int, auto: nat) -> nat {
    match given_config(configs, i) {
        Some(c) => match c.width {
            Some(w) => w as nat,
            None => auto,
        },
        None => auto,
    }
}

/// The alignment of column `i` (left by default).
pub open spec fn plain_alignment(configs: Seq<ColumnConfig>, i: int) -> Alignment {
    match given_config(configs, i) {
        Some(c) => c.alignment,
        None => Alignment::Left,
    }
}

/// The padding of column `i` (one space on each side by default).
pub open spec fn plain_padding(configs: Seq<ColumnConfig>, i: int) -> Padding {
    match given_config(configs, i) {
        Some(c) => c.padding,
        None => Padding { left: 1, right: 1 },
    }
}

/// A cell cut by column `i`'s truncation (unchanged by default); the start is never cut off
/// unless `honor_start` holds.
pub open spec fn plain_truncate(configs: Seq<ColumnConfig>, i: int, cell: Seq<char>, honor_start: bool) -> Seq<char> {
    match given_config(configs, i) {
        Some(c) => truncate_text_spec(
            cell,
            TruncationConfig { truncate_start: c.truncation.truncate_start && honor_start, ..c.truncation },
        ),
        None => cell,
    }
}

/// Whether every cell can be cut by its column's truncation.
pub open spec fn plain_cells_ok(t: Seq<Seq<Seq<char>>>, configs: Seq<ColumnConfig>) -> bool {
    forall|r: int, c: int|
        0 <= r < t.len() && 0 <= c < t[r].len() && c < configs.len() ==> truncate_text_ok(
            #[trigger] t[r][c],
            configs[c].truncation,
        )
}

/// The drawn width of column `i`: its content width and padding (held at `usize::MAX`).
pub open spec fn plain_total_width(configs: Seq<ColumnConfig>, i: int, auto: nat) -> nat {
    sat_add(
        sat_add(plain_content_width(configs, i, auto), plain_padding(configs, i).left as nat),
        plain_padding(configs, i).right as nat,
    )
}

/// The drawn widths of all columns, for the content widths `auto`.
pub open spec fn widths_for(configs: Seq<ColumnConfig>, auto: Seq<nat>) -> Seq<nat> {
    Seq::new(auto.len(), |i: int| plain_total_width(configs, i, auto[i]))
}

/// The drawn widths of all columns.
pub open spec fn plain_widths(t: Seq<Seq<Seq<char>>>, configs: Seq<ColumnConfig>) -> Seq<nat> {
    widths_for(configs, byte_column_widths(t))
}

/// A horizontal line: the left end, for each width that many horizontal characters with the
/// junction between them, the right end, and a line feed.
pub open spec fn plain_line_spec(left: char, junction: char, right: char, h: char, widths: Seq<nat>) -> Seq<
    char,
> {
    seq![left] + join_seq(Seq::new(widths.len(), |i: int| char_run(h, widths[i])), seq![junction])
        + seq![right] + seq!['\n']
}

/// A horizontal line (see `plain_line_spec`).
pub fn plain_line(left: char, junction: char, right: char, h: char, widths: &Vec<usize>) -> (res:
    String)
    ensures
        res@ == plain_line_spec(left, junction, right, h, widths@.map_values(|w: usize| w as nat)),
{
    let ghost runs = Seq::new(widths@.len(), |i: int| char_run(h, widths@[i] as nat));
    let mut result = String::new();
    push_char(&mut result, left);
    let ghost start = result@;
    let mut i: usize = 0;
    while i < widths.len()
        invariant
            i <= widths.len(),
            runs == Seq::new(widths@.len(), |k: int| char_run(h, widths@[k] as nat)),
            result@ == start + join_seq(runs.take(i as int), seq![junction]),
        decreases widths.len() - i,
    {
        let ghost pre = runs.take(i as int);
        if i > 0 {
            push_char(&mut result, junction);
        }
        let run = repeat_char(h, widths[i]);
        push_str(&mut result, run.as_str());
        i = i + 1;
        assert(runs.take(i as int).drop_last() =~= pre);
        assert(result@ =~= start + join_seq(runs.take(i as int), seq![junction]));
    }
    assert(runs.take(i as int) =~= runs);
    push_char(&mut result, right);
    push_char(&mut result, '\n');
    assert(runs =~= Seq::new(
        widths@.map_values(|w: usize| w as nat).len(),
        |k: int| char_run(h, widths@.map_values(|w: usize| w as nat)[k]),
    ));
    result
}

/// One cell drawn: cut, placed in the content width, padded.
pub open spec fn plain_cell_spec(configs: Seq<ColumnConfig>, i: int, cell: Seq<char>, auto: nat, honor_start: bool) -> Seq<
    char,
> {
    apply_padding_spec(
        align_text_spec(
            plain_truncate(configs, i, cell, honor_start),
            plain_content_width(configs, i, auto),
            plain_alignment(configs, i),
        ),
        plain_padding(configs, i),
    )
}

/// One row drawn: the vertical character, each cell followed by it, a line feed.
pub open spec fn plain_row_spec(row: Seq<Seq<char>>, configs: Seq<ColumnConfig>, auto: Seq<nat>, v: char, honor_start: bool) -> Seq<
    char,
> {
    seq![v] + concat_all(
        Seq::new(
            row.len(),
            |i: int|
                plain_cell_spec(configs, i, row[i], if i < auto.len() { auto[i] } else { 0 }, honor_start)
                    + seq![v],
        ),
    ) + seq!['\n']
}

/// The body of a plain table: each row followed (but the last) by a separator line when
/// shown.
pub open spec fn plain_body(
    t: Seq<Seq<Seq<char>>>,
    b: BorderChars,
    o: RenderOptions,
    configs: Seq<ColumnConfig>,
    auto: Seq<nat>,
    honor_start: bool,
) -> Seq<Seq<char>> {
    Seq::new(
        t.len(),
        |r: int|
            plain_row_spec(t[r], configs, auto, b.vertical, honor_start) + if o.show_row_separators && r
                < t.len() - 1 {
                plain_line_spec('├', '┼', '┤', b.horizontal, widths_for(configs, auto))
            } else {
                Seq::empty()
            },
    )
}

/// A plain table drawn with content widths `auto`: the top line when shown, the body, the
/// bottom line when shown; nothing for no rows.
pub open spec fn plain_table_gen(
    t: Seq<Seq<Seq<char>>>,
    b: BorderChars,
    o: RenderOptions,
    configs: Seq<ColumnConfig>,
    auto: Seq<nat>,
    honor_start: bool,
) -> Seq<char> {
    let w = widths_for(configs, auto);
    if t.len() == 0 {
        Seq::empty()
    } else {
        (if o.show_top_border {
            plain_line_spec(b.top_left, b.top_junction, b.top_right, b.horizontal, w)
        } else {
            Seq::empty()
        }) + concat_all(plain_body(t, b, o, configs, auto, honor_start)) + if o.show_bottom_border {
            plain_line_spec(b.bottom_left, b.bottom_junction, b.bottom_right, b.horizontal, w)
        } else {
            Seq::empty()
        }
    }
}

/// What `render_table_with_column_config` gives for rows of equal length (see
/// `plain_table_gen`), the content widths being the longest cells in bytes.
pub open spec fn plain_table_spec(
    t: Seq<Seq<Seq<char>>>,
    b: BorderChars,
    o: RenderOptions,
    configs: Seq<ColumnConfig>,
) -> Seq<char> {
    plain_table_gen(t, b, o, configs, byte_column_widths(t), true)
}

/// Draws the rows of a plain table whose rows all have `auto@.len()` cells (see
/// `plain_table_gen`); cells go through `cache` when `use_cache` holds.
pub(crate) fn render_rows(
    data: &TableData,
    border: &BorderChars,
    options: &RenderOptions,
    column_configs: &[ColumnConfig],
    auto: &Vec<usize>,
    honor_start: bool,
    cache: &mut RenderCache,
    use_cache: bool,
) -> (res: String)
    requires
        data.rows@.len() > 0,
        forall|r: int| 0 <= r < data.rows@.len() ==> (#[trigger] data.rows@[r])@.len() == auto@.len(),
        plain_cells_ok(table_view(data.rows@), column_configs@),
        forall|k: int| 0 <= k < auto@.len() ==> auto@[k] <= usize::MAX,
        cache_ok(*old(cache)),
        use_cache ==> !honor_start,
    ensures
        cache_ok(*final(cache)),
        res@ == plain_table_gen(
            table_view(data.rows@),
            *border,
            *options,
            column_configs@,
            auto@.map_values(|w: usize| w as nat),
            honor_start,
        ),
{
    let ghost t = table_view(data.rows@);
    let ghost cfgs = column_configs@;
    let ghost autov = auto@.map_values(|w: usize| w as nat);
    let mut widths: Vec<usize> = Vec::new();
    let mut i: usize = 0;
    while i < auto.len()
        invariant
            i <= auto.len(),
            autov == auto@.map_values(|w: usize| w as nat),
            cfgs == column_configs@,
            widths@.len() == i,
            forall|k: int| 0 <= k < i ==> widths@[k] as nat == #[trigger] widths_for(cfgs, autov)[k],
        decreases auto.len() - i,
    {
        let w: usize = if i < column_configs.len() {
            let c = &column_configs[i];
            let cw = match c.width {
                Some(x) => x,
                None => auto[i],
            };
            cw.saturating_add(c.padding.left).saturating_add(c.padding.right)
        } else {
            auto[i].saturating_add(1).saturating_add(1)
        };
        widths.push(w);
        i = i + 1;
    }
    assert(widths@.map_values(|w: usize| w as nat) =~= widths_for(cfgs, autov));
    let mut result = String::new();
    if options.show_top_border {
        let line = plain_line(border.top_left, border.top_junction, border.top_right, border.horizontal, &widths);
        push_str(&mut result, line.as_str());
    }
    let ghost start = result@;
    let ghost parts = plain_body(t, *border, *options, cfgs, autov, honor_start);
    let n = data.rows.len();
    let mut r: usize = 0;
    while r < n
        invariant
            r <= n == data.rows@.len() == t.len(),
            t == table_view(data.rows@),
            cfgs == column_configs@,
            autov == auto@.map_values(|w: usize| w as nat),
            plain_cells_ok(t, cfgs),
            forall|q: int| 0 <= q < data.rows@.len() ==> (#[trigger] data.rows@[q])@.len() == auto@.len(),
            widths@.map_values(|x: usize| x as nat) == widths_for(cfgs, autov),
            parts == plain_body(t, *border, *options, cfgs, autov, honor_start),
            result@ == start + concat_all(parts.take(r as int)),
            cache_ok(*cache),
            use_cache ==> !honor_start,
        decreases n - r,
    {
        let row = &data.rows[r];
        assert(t[r as int] == views(row@));
        let ghost before = result@;
        proof {
            assert forall|c: int| 0 <= c < views(row@).len() && c < cfgs.len() implies truncate_text_ok(
                #[trigger] views(row@)[c],
                cfgs[c].truncation,
            ) by {
                assert(t[r as int][c] == views(row@)[c]);
            }
        }
        let line = render_row(row, column_configs, auto, honor_start, border.vertical, cache, use_cache);
        push_str(&mut result, line.as_str());
        if options.show_row_separators && r < n - 1 {
            let line = plain_line('├', '┼', '┤', border.horizontal, &widths);
            push_str(&mut result, line.as_str());
        }
        assert(result@ =~= before + parts[r as int]);
        assert(parts.take(r + 1).drop_last() =~= parts.take(r as int));
        r = r + 1;
    }
    assert(parts.take(r as int) =~= parts);
    if options.show_bottom_border {
        let line = plain_line(
            border.bottom_left,
            border.bottom_junction,
            border.bottom_right,
            border.horizontal,
            &widths,
        );
        push_str(&mut result, line.as_str());
    }
    result
}

/// Draws a plain table with per-column settings (the defaults past the given ones); rows of
/// different lengths are refused (see `validate_table_data`), no rows give nothing.
pub fn render_table_with_column_config(
    data: &TableData,
    border: &BorderChars,
    options: &RenderOptions,
    column_configs: &[ColumnConfig],
) -> (res: Result<String, String>)
    requires
        plain_cells_ok(table_view(data.rows@), column_configs@),
    ensures
        first_bad_row(table_view(data.rows@), 0, column_count_of(table_view(data.rows@))) is Some
            <==> res is Err,
        res matches Ok(s) ==> s@ == plain_table_spec(
            table_view(data.rows@),
            *border,
            *options,
            column_configs@,
        ),
{
    match validate_table_data(data) {
        Ok(_) => {},
        Err(e) => {
            return Err(e);
        },
    }
    if data.rows.len() == 0 {
        return Ok(String::new());
    }
    let auto = calculate_column_widths(data);
    let ghost t = table_view(data.rows@);
    assert(auto@.map_values(|w: usize| w as nat) =~= byte_column_widths(t));
    proof {
        lemma_no_bad_row(t, 0, column_count_of(t));
        assert forall|r: int| 0 <= r < data.rows@.len() implies (#[trigger] data.rows@[r])@.len() == auto@.len() by {
            assert(t[r].len() == column_count_of(t));
        }
    }
    let mut cache = RenderCache::new(0);
    Ok(render_rows(data, border, options, column_configs, &auto, true, &mut cache, false))
}

/// Rows from `i` on all have length `m` when none is found that does not.
pub proof fn lemma_no_bad_row(t: Seq<Seq<Seq<char>>>, i: int, m: nat)
    requires
        0 <= i,
        first_bad_row(t, i, m) is None,
    ensures
        forall|r: int| i <= r < t.len() ==> #[trigger] t[r].len() == m,
    decreases t.len() - i,
{
    if i < t.len() {
        lemma_no_bad_row(t, i + 1, m);
    }
}

/// Draws a plain table with the default column settings.
pub fn render_table(data: &TableData, border: &BorderChars, options: &RenderOptions) -> (res: Result<
    String,
    String,
>)
    ensures
        first_bad_row(table_view(data.rows@), 0, column_count_of(table_view(data.rows@))) is Some
            <==> res is Err,
        res matches Ok(s) ==> s@ == plain_table_spec(
            table_view(data.rows@),
            *border,
            *options,
            Seq::empty(),
        ),
{
    let configs: Vec<ColumnConfig> = Vec::new();
    render_table_with_column_config(data, border, options, configs.as_slice())
}

/// One row drawn (see `plain_row_spec`); cells go through `cache` when `use_cache` holds.
#[verifier::spinoff_prover]
#[verifier::rlimit(40)]
fn render_row(
    row: &Row,
    column_configs: &[ColumnConfig],
    auto: &Vec<usize>,
    honor_start: bool,
    v: char,
    cache: &mut RenderCache,
    use_cache: bool,
) -> (res: String)
    requires
        row@.len() == auto@.len(),
        forall|c: int| 0 <= c < views(row@).len() && c < column_configs@.len() ==> truncate_text_ok(
            #[trigger] views(row@)[c],
            column_configs@[c].truncation,
        ),
        cache_ok(*old(cache)),
        use_cache ==> !honor_start,
    ensures
        cache_ok(*final(cache)),
        res@ == plain_row_spec(views(row@), column_configs@, auto@.map_values(|w: usize| w as nat), v, honor_start),
{
    let ghost cfgs = column_configs@;
    let ghost autov = auto@.map_values(|w: usize| w as nat);
    let ghost cells = Seq::new(
        views(row@).len(),
        |i: int|
            plain_cell_spec(cfgs, i, views(row@)[i], if i < autov.len() { autov[i] } else { 0 }, honor_start)
                + seq![v],
    );
    let mut result = String::new();
    push_char(&mut result, v);
    let ghost after_v = result@;
    let mut c: usize = 0;
    while c < row.len()
        invariant
            c <= row.len(),
            row@.len() == auto@.len(),
            cfgs == column_configs@,
            autov == auto@.map_values(|w: usize| w as nat),
            forall|k: int| 0 <= k < views(row@).len() && k < cfgs.len() ==> truncate_text_ok(
                #[trigger] views(row@)[k],
                cfgs[k].truncation,
            ),
            cells == Seq::new(
                views(row@).len(),
                |i: int|
                    plain_cell_spec(cfgs, i, views(row@)[i], if i < autov.len() { autov[i] } else { 0 }, honor_start)
                        + seq![v],
            ),
            result@ == after_v + concat_all(cells.take(c as int)),
            cache_ok(*cache),
            use_cache ==> !honor_start,
        decreases row.len() - c,
    {
        let cell = row[c].as_str();
        assert(views(row@)[c as int] == cell@);
        let a: usize = auto[c];
        let padded = if c < column_configs.len() {
            let cfg = &column_configs[c];
            assert(truncate_text_ok(views(row@)[c as int], cfgs[c as int].truncation));
            let cw = match cfg.width {
                Some(x) => x,
                None => a,
            };
            let tc = TruncationConfig {
                max_width: cfg.truncation.max_width,
                ellipsis: cfg.truncation.ellipsis.clone(),
                truncate_start: cfg.truncation.truncate_start && honor_start,
            };
            cache.process(cell, &tc, cw, cfg.alignment, cfg.padding, use_cache)
        } else {
            cache.process(cell, &TruncationConfig::none(), a, Alignment::Left, Padding::default(), use_cache)
        };
        push_str(&mut result, padded.as_str());
        push_char(&mut result, v);
        assert(cells.take(c + 1).drop_last() =~= cells.take(c as int));
        assert(result@ =~= after_v + concat_all(cells.take(c + 1)));
        c = c + 1;
    }
    assert(cells.take(c as int) =~= cells);
    push_char(&mut result, '\n');
    result
}

} // verus!
