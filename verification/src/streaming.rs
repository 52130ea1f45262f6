use crate::alignment::{align_text, align_text_spec, ColumnConfig};
use crate::border::{honeywell_chars, BorderChars};
use crate::headers::{cell_layout, layout_of, width_of, Layout};
use crate::padding::{apply_padding, apply_padding_spec};
use crate::renderer::RenderOptions;
use crate::table_data::{plain_line, plain_line_spec};
use crate::text::{concat_all, decimal, owned, push_char, push_str, usize_to_string, views};
use crate::truncation::{truncate_parts, truncate_parts_ok, truncate_text};
use crate::utils::ansi::{byte_len, sat_add};
use vstd::prelude::*;

verus! {

/// Top and bottom lines, no lines between rows.
pub open spec fn default_stream_options() -> RenderOptions {
    RenderOptions { show_top_border: true, show_bottom_border: true, show_row_separators: false }
}

/// How a table is written row by row: its border, which lines are drawn, the column
/// settings, how many bytes are held before they are handed out, and whether every row is
/// handed out at once.
pub struct StreamingTableConfig {
    pub border: BorderChars,
    pub options: RenderOptions,
    pub column_configs: Vec<ColumnConfig>,
    pub buffer_size: usize,
    pub flush_on_row: bool,
}

impl Default for StreamingTableConfig {
    /// Single lines, top and bottom lines, no column settings, 8192 bytes held, no handing out
    /// per row.
    fn default() -> (res: Self)
        ensures
            res.border == honeywell_chars(),
            res.options == default_stream_options(),
            res.column_configs@.len() == 0,
            res.buffer_size == 8192,
            !res.flush_on_row,
    {
        StreamingTableConfig {
            border: BorderChars::default(),
            options: RenderOptions::default(),
            column_configs: Vec::new(),
            buffer_size: 8192,
            flush_on_row: false,
        }
    }
}

impl StreamingTableConfig {
    /// The default settings.
    pub fn new() -> (res: Self)
        ensures
            res.border == honeywell_chars(),
            res.options == default_stream_options(),
            res.column_configs@.len() == 0,
            res.buffer_size == 8192,
            !res.flush_on_row,
    {
        Self::default()
    }

    /// The settings with another border.
    pub fn with_border(self, border: BorderChars) -> (res: Self)
        ensures
            res.border == border,
            res.options == self.options,
            res.column_configs@ == self.column_configs@,
            res.buffer_size == self.buffer_size,
            res.flush_on_row == self.flush_on_row,
    {
        StreamingTableConfig { border, ..self }
    }

    /// The settings with other line options.
    pub fn with_options(self, options: RenderOptions) -> (res: Self)
        ensures
            res.border == self.border,
            res.options == options,
            res.column_configs@ == self.column_configs@,
            res.buffer_size == self.buffer_size,
            res.flush_on_row == self.flush_on_row,
    {
        StreamingTableConfig { options, ..self }
    }

    /// The settings with other column settings.
    pub fn with_column_configs(self, configs: Vec<ColumnConfig>) -> (res: Self)
        ensures
            res.border == self.border,
            res.options == self.options,
            res.column_configs@ == configs@,
            res.buffer_size == self.buffer_size,
            res.flush_on_row == self.flush_on_row,
    {
        StreamingTableConfig { column_configs: configs, ..self }
    }

    /// The settings holding another number of bytes.
    pub fn with_buffer_size(self, size: usize) -> (res: Self)
        ensures
            res.border == self.border,
            res.options == self.options,
            res.column_configs@ == self.column_configs@,
            res.buffer_size == size,
            res.flush_on_row == self.flush_on_row,
    {
        StreamingTableConfig { buffer_size: size, ..self }
    }

    /// The settings handing out every row at once.
    pub fn with_flush_on_row(self) -> (res: Self)
        ensures
            res.border == self.border,
            res.options == self.options,
            res.column_configs@ == self.column_configs@,
            res.buffer_size == self.buffer_size,
            res.flush_on_row,
    {
        StreamingTableConfig { flush_on_row: true, ..self }
    }
}

/// The layout of column `i`: its settings, or the defaults past them.
pub open spec fn stream_layout(cfgs: Seq<ColumnConfig>, i: int) -> Layout {
    cell_layout(Seq::empty(), cfgs, i)
}

/// The drawn width of each column: its content width and its padding (sums held at
/// `usize::MAX`).
pub open spec fn line_widths(widths: Seq<nat>, cfgs: Seq<ColumnConfig>) -> Seq<nat> {
    Seq::new(
        widths.len(),
        |i: int|
            sat_add(
                widths[i],
                sat_add(
                    stream_layout(cfgs, i).padding.left as nat,
                    stream_layout(cfgs, i).padding.right as nat,
                ),
            ),
    )
}

/// A cell written in a column `w` wide: cut, placed in the width, padded.
pub open spec fn stream_cell_text(l: Layout, cell: Seq<char>, w: nat) -> Seq<char> {
    apply_padding_spec(
        align_text_spec(truncate_parts(cell, l.max, l.ellipsis, l.truncate_start), w, l.alignment),
        l.padding,
    )
}

/// A row written: the vertical character, each cell followed by it, a line feed.
pub open spec fn stream_row_line(row: Seq<Seq<char>>, widths: Seq<nat>, cfgs: Seq<ColumnConfig>, v: char) -> Seq<char> {
    seq![v] + concat_all(
        Seq::new(
            row.len(),
            |i: int| stream_cell_text(stream_layout(cfgs, i), row[i], width_of(widths, i)) + seq![v],
        ),
    ) + seq!['\n']
}

/// Whether every cell of a row can be cut as its column says.
pub open spec fn stream_cells_ok(row: Seq<Seq<char>>, cfgs: Seq<ColumnConfig>) -> bool {
    forall|i: int|
        0 <= i < row.len() ==> truncate_parts_ok(
            #[trigger] row[i],
            stream_layout(cfgs, i).max,
            stream_layout(cfgs, i).ellipsis,
            stream_layout(cfgs, i).truncate_start,
        )
}

/// The top line over columns of the given content widths.
pub open spec fn top_line(c: StreamingTableConfig, widths: Seq<nat>) -> Seq<char> {
    let b = c.border;
    plain_line_spec(b.top_left, b.top_junction, b.top_right, b.horizontal, line_widths(widths, c.column_configs@))
}

/// The line between two rows.
pub open spec fn separator_line(c: StreamingTableConfig, widths: Seq<nat>) -> Seq<char> {
    plain_line_spec('├', '┼', '┤', c.border.horizontal, line_widths(widths, c.column_configs@))
}

/// The bottom line.
pub open spec fn bottom_line(c: StreamingTableConfig, widths: Seq<nat>) -> Seq<char> {
    let b = c.border;
    plain_line_spec(
        b.bottom_left,
        b.bottom_junction,
        b.bottom_right,
        b.horizontal,
        line_widths(widths, c.column_configs@),
    )
}

/// The chunks handed out and the text held after adding `piece`: once the held text reaches
/// `size` bytes it is handed out.
pub open spec fn after_piece(state: (Seq<Seq<char>>, Seq<char>), piece: Seq<char>, size: nat) -> (
    Seq<Seq<char>>,
    Seq<char>,
) {
    let held = state.1 + piece;
    if byte_len(held) >= size && held.len() > 0 {
        (state.0.push(held), Seq::empty())
    } else {
        (state.0, held)
    }
}

/// The chunks handed out and the text held after adding the pieces in order.
pub open spec fn after_pieces(state: (Seq<Seq<char>>, Seq<char>), pieces: Seq<Seq<char>>, size: nat) -> (
    Seq<Seq<char>>,
    Seq<char>,
)
    decreases pieces.len(),
{
    if pieces.len() == 0 {
        state
    } else {
        after_piece(after_pieces(state, pieces.drop_last(), size), pieces.last(), size)
    }
}

/// Adding one more piece adds it to the state after the others.
proof fn lemma_after_push(state: (Seq<Seq<char>>, Seq<char>), pieces: Seq<Seq<char>>, p: Seq<char>, size: nat)
    ensures
        after_pieces(state, pieces.push(p), size) == after_piece(after_pieces(state, pieces, size), p, size),
{
    assert(pieces.push(p).drop_last() =~= pieces);
}

/// The held text handed out, when there is any.
pub open spec fn after_flush(state: (Seq<Seq<char>>, Seq<char>)) -> (Seq<Seq<char>>, Seq<char>) {
    if state.1.len() > 0 {
        (state.0.push(state.1), Seq::empty())
    } else {
        state
    }
}

/// The byte length of each cell.
pub open spec fn byte_widths(row: Seq<Seq<char>>) -> Seq<nat> {
    Seq::new(row.len(), |i: int| byte_len(row[i]))
}

/// The message for a row of `got` cells where `expected` are wanted.
pub open spec fn mismatch_msg(got: nat, expected: nat) -> Seq<char> {
    "Row has "@ + decimal(got) + " columns, expected "@ + decimal(expected)
}

/// The pieces a row adds: the top line when the columns are set by it (and the top line is
/// shown), a line between rows when shown and it is not the first row, and the row itself.
pub open spec fn row_pieces(
    c: StreamingTableConfig,
    first_widths: bool,
    widths: Seq<nat>,
    count: nat,
    row: Seq<Seq<char>>,
) -> Seq<Seq<char>> {
    (if first_widths && c.options.show_top_border {
        seq![top_line(c, widths)]
    } else {
        Seq::empty()
    }) + (if c.options.show_row_separators && count > 0 {
        seq![separator_line(c, widths)]
    } else {
        Seq::empty()
    }) + seq![stream_row_line(row, widths, c.column_configs@, c.border.vertical)]
}

/// What a writer holds besides its settings: the content widths, the number of columns
/// rows must have (0 while not set), the text held and the number of rows written.
pub struct StreamSnap {
    pub widths: Seq<nat>,
    pub columns: nat,
    pub held: Seq<char>,
    pub count: nat,
}

/// Adding a row: refused with a message when its number of cells is not the columns' (once
/// set); else the content widths are set from its cells' byte lengths when none are, the
/// pieces of `row_pieces` are added, and with `flush_on_row` the held text is handed out.
/// Gives the chunks handed out and what the writer then holds.
pub open spec fn row_step(c: StreamingTableConfig, s: StreamSnap, row: Seq<Seq<char>>) -> Result<
    (Seq<Seq<char>>, StreamSnap),
    Seq<char>,
> {
    if row.len() != s.columns && s.columns > 0 {
        Err(mismatch_msg(row.len(), s.columns))
    } else {
        let first = s.widths.len() == 0;
        let w = if first {
            byte_widths(row)
        } else {
            s.widths
        };
        let state = after_pieces(
            (Seq::empty(), s.held),
            row_pieces(c, first, w, s.count, row),
            c.buffer_size as nat,
        );
        let done = if c.flush_on_row {
            after_flush(state)
        } else {
            state
        };
        Ok(
            (
                done.0,
                StreamSnap {
                    widths: w,
                    columns: if first {
                        row.len()
                    } else {
                        s.columns
                    },
                    held: done.1,
                    count: s.count + 1,
                },
            ),
        )
    }
}

/// Adding rows in order: the first refusal, or all chunks handed out and what the writer
/// then holds.
pub open spec fn rows_steps(c: StreamingTableConfig, s: StreamSnap, rows: Seq<Seq<Seq<char>>>) -> Result<
    (Seq<Seq<char>>, StreamSnap),
    Seq<char>,
>
    decreases rows.len(),
{
    if rows.len() == 0 {
        Ok((Seq::empty(), s))
    } else {
        match rows_steps(c, s, rows.drop_last()) {
            Err(m) => Err(m),
            Ok((out, s1)) => match row_step(c, s1, rows.last()) {
                Err(m) => Err(m),
                Ok((more, s2)) => Ok((out + more, s2)),
            },
        }
    }
}

/// Whether adding the rows of `t` one by one from `s` went through the first `k` of them,
/// leaving `fin`, and was refused at row `k`.
pub open spec fn stopped_at(c: StreamingTableConfig, s: StreamSnap, t: Seq<Seq<Seq<char>>>, k: int, fin: StreamSnap) -> bool {
    &&& 0 <= k < t.len()
    &&& rows_steps(c, s, t.take(k)) matches Ok((_, s1)) && s1 == fin
    &&& row_step(c, fin, t[k]) is Err
}

/// Once adding some first rows is refused, adding more rows is refused with the same
/// message.
proof fn lemma_steps_err(c: StreamingTableConfig, s: StreamSnap, t: Seq<Seq<Seq<char>>>, k: int)
    requires
        0 <= k <= t.len(),
        rows_steps(c, s, t.take(k)) is Err,
    ensures
        rows_steps(c, s, t) == rows_steps(c, s, t.take(k)),
    decreases t.len() - k,
{
    if k < t.len() {
        assert(t.take(k + 1).drop_last() =~= t.take(k));
        lemma_steps_err(c, s, t, k + 1);
    } else {
        assert(t.take(k) =~= t);
    }
}

/// A table written row by row. Its text is held until enough bytes are gathered; each call
/// hands back the chunks to be written out, in order.
pub struct StreamingTableWriter {
    config: StreamingTableConfig,
    column_widths: Vec<usize>,
    buffer: String,
    row_count: usize,
    column_count: usize,
}

impl StreamingTableWriter {
    /// The settings.
    pub closed spec fn config(&self) -> StreamingTableConfig {
        self.config
    }

    /// The content width of each column; empty until set.
    pub closed spec fn widths(&self) -> Seq<nat> {
        self.column_widths@.map_values(|w: usize| w as nat)
    }

    /// The text held and not yet handed out.
    pub closed spec fn held(&self) -> Seq<char> {
        self.buffer@
    }

    /// The number of rows written.
    pub closed spec fn count(&self) -> nat {
        self.row_count as nat
    }

    /// The number of columns rows must have (0 while not set).
    pub closed spec fn columns(&self) -> nat {
        self.column_count as nat
    }

    /// All the writer holds besides its settings.
    pub open spec fn snap(&self) -> StreamSnap {
        StreamSnap { widths: self.widths(), columns: self.columns(), held: self.held(), count: self.count() }
    }

    /// A writer with the given settings, nothing written.
    pub fn new(config: StreamingTableConfig) -> (res: Self)
        ensures
            res.config() == config,
            res.widths().len() == 0,
            res.held().len() == 0,
            res.count() == 0,
            res.columns() == 0,
    {
        StreamingTableWriter {
            config,
            column_widths: Vec::new(),
            buffer: String::new(),
            row_count: 0,
            column_count: 0,
        }
    }

    /// Adds a piece of text, handing out the held text once it reaches the buffer size.
    fn push_piece(&mut self, piece: String, out: &mut Vec<String>)
        ensures
            (views(final(out)@), final(self).buffer@) == after_piece(
                (views(old(out)@), old(self).buffer@),
                piece@,
                old(self).config.buffer_size as nat,
            ),
            final(self).config == old(self).config,
            final(self).column_widths == old(self).column_widths,
            final(self).row_count == old(self).row_count,
            final(self).column_count == old(self).column_count,
    {
        push_str(&mut self.buffer, piece.as_str());
        if self.buffer.as_str().as_bytes().len() >= self.config.buffer_size && self.buffer.as_str().as_bytes().len() > 0 {
            let ghost before = views(out@);
            let chunk = owned(self.buffer.as_str());
            self.buffer = String::new();
            out.push(chunk);
            assert(views(out@) =~= before.push(chunk@));
        }
    }

    /// Hands out the held text, if any.
    fn flush(&mut self, out: &mut Vec<String>)
        ensures
            (views(final(out)@), final(self).buffer@) == after_flush((views(old(out)@), old(self).buffer@)),
            final(self).config == old(self).config,
            final(self).column_widths == old(self).column_widths,
            final(self).row_count == old(self).row_count,
            final(self).column_count == old(self).column_count,
    {
        if self.buffer.as_str().as_bytes().len() > 0 {
            let ghost before = views(out@);
            let chunk = owned(self.buffer.as_str());
            self.buffer = String::new();
            out.push(chunk);
            assert(views(out@) =~= before.push(chunk@));
        }
    }

    /// Sets the columns' content widths and adds the top line (when shown); gives back the
    /// chunks handed out.
    pub fn initialize(&mut self, column_widths: Vec<usize>) -> (res: Vec<String>)
        ensures
            final(self).config() == old(self).config(),
            final(self).widths() == column_widths@.map_values(|w: usize| w as nat),
            final(self).columns() == column_widths@.len(),
            final(self).count() == old(self).count(),
            (views(res@), final(self).held()) == after_pieces(
                (Seq::empty(), old(self).held()),
                if old(self).config().options.show_top_border {
                    seq![top_line(old(self).config(), column_widths@.map_values(|w: usize| w as nat))]
                } else {
                    Seq::empty()
                },
                old(self).config().buffer_size as nat,
            ),
    {
        let mut out: Vec<String> = Vec::new();
        assert(views(out@) =~= Seq::<Seq<char>>::empty());
        self.column_count = column_widths.len();
        self.column_widths = column_widths;
        if self.config.options.show_top_border {
            let ghost s0 = (views(out@), self.buffer@);
            let line = self.top_border();
            self.push_piece(line, &mut out);
            proof {
                lemma_after_push(s0, Seq::empty(), line@, self.config.buffer_size as nat);
                assert(Seq::<Seq<char>>::empty().push(line@) =~= seq![line@]);
            }
        }
        out
    }

    /// The line widths of the columns.
    fn line_widths_of(&self) -> (res: Vec<usize>)
        ensures
            res@.map_values(|w: usize| w as nat) == line_widths(
                self.column_widths@.map_values(|w: usize| w as nat),
                self.config.column_configs@,
            ),
    {
        let ghost ws = self.column_widths@.map_values(|w: usize| w as nat);
        let mut res: Vec<usize> = Vec::new();
        let mut i: usize = 0;
        while i < self.column_widths.len()
            invariant
                i <= self.column_widths@.len(),
                ws == self.column_widths@.map_values(|w: usize| w as nat),
                res@.len() == i,
                forall|k: int|
                    0 <= k < i ==> #[trigger] res@[k] as nat == line_widths(
                        ws,
                        self.config.column_configs@,
                    )[k],
            decreases self.column_widths@.len() - i,
        {
            let l = column_at(self.config.column_configs.as_slice(), i);
            let pad = l.padding.left.saturating_add(l.padding.right);
            res.push(self.column_widths[i].saturating_add(pad));
            i = i + 1;
        }
        assert(res@.map_values(|w: usize| w as nat) =~= line_widths(ws, self.config.column_configs@));
        res
    }

    fn top_border(&self) -> (res: String)
        ensures
            res@ == top_line(self.config, self.column_widths@.map_values(|w: usize| w as nat)),
    {
        let lw = self.line_widths_of();
        let b = self.config.border;
        plain_line(b.top_left, b.top_junction, b.top_right, b.horizontal, &lw)
    }

    fn separator(&self) -> (res: String)
        ensures
            res@ == separator_line(self.config, self.column_widths@.map_values(|w: usize| w as nat)),
    {
        let lw = self.line_widths_of();
        plain_line('├', '┼', '┤', self.config.border.horizontal, &lw)
    }

    fn bottom_border(&self) -> (res: String)
        ensures
            res@ == bottom_line(self.config, self.column_widths@.map_values(|w: usize| w as nat)),
    {
        let lw = self.line_widths_of();
        let b = self.config.border;
        plain_line(b.bottom_left, b.bottom_junction, b.bottom_right, b.horizontal, &lw)
    }

    /// A row written in the columns (see `stream_row_line`).
#[verifier::spinoff_prover]
    fn data_row(&self, row: &[String]) -> (res: String)
        requires
            stream_cells_ok(views(row@), self.config.column_configs@),
        ensures
            res@ == stream_row_line(
                views(row@),
                self.column_widths@.map_values(|w: usize| w as nat),
                self.config.column_configs@,
                self.config.border.vertical,
            ),
    {
        let ghost w = self.column_widths@.map_values(|x: usize| x as nat);
        let ghost cfgs = self.config.column_configs@;
        let v = self.config.border.vertical;
        let ghost cells = Seq::new(
            views(row@).len(),
            |i: int| stream_cell_text(stream_layout(cfgs, i), views(row@)[i], width_of(w, i)) + seq![v],
        );
        let mut result = String::new();
        push_char(&mut result, v);
        let ghost start = result@;
        let mut i: usize = 0;
        while i < row.len()
            invariant
                i <= row@.len(),
                w == self.column_widths@.map_values(|x: usize| x as nat),
                cfgs == self.config.column_configs@,
                v == self.config.border.vertical,
                stream_cells_ok(views(row@), cfgs),
                cells == Seq::new(
                    views(row@).len(),
                    |k: int| stream_cell_text(stream_layout(cfgs, k), views(row@)[k], width_of(w, k)) + seq![v],
                ),
                result@ == start + concat_all(cells.take(i as int)),
            decreases row@.len() - i,
        {
            let config = column_at(self.config.column_configs.as_slice(), i);
            assert(views(row@)[i as int] == row@[i as int]@);
            let wi: usize = if i < self.column_widths.len() {
                self.column_widths[i]
            } else {
                0
            };
            assert(wi as nat == width_of(w, i as int));
            let truncated = truncate_text(row[i].as_str(), &config.truncation);
            let aligned = align_text(truncated.as_str(), wi, config.alignment);
            let padded = apply_padding(aligned.as_str(), config.padding);
            let ghost before = result@;
            push_str(&mut result, padded.as_str());
            push_char(&mut result, v);
            assert(result@ == before + cells[i as int]);
            assert(cells.take(i + 1).drop_last() =~= cells.take(i as int));
            i = i + 1;
        }
        assert(cells.take(i as int) =~= cells);
        push_char(&mut result, '\n');
        result
    }

    /// Adds a row (see `row_step`); gives back the chunks handed out, or the refusal.
#[verifier::spinoff_prover]
    pub fn add_row(&mut self, row: &[String]) -> (res: Result<Vec<String>, String>)
        requires
            old(self).count() < usize::MAX,
            stream_cells_ok(views(row@), old(self).config().column_configs@),
        ensures
            final(self).config() == old(self).config(),
            match row_step(old(self).config(), old(self).snap(), views(row@)) {
                Err(m) => (res matches Err(e) && e@ == m && *final(self) == *old(self)),
                Ok((chunks, s)) => (res matches Ok(c) && views(c@) == chunks && final(self).snap() == s),
            },
    {
        if row.len() != self.column_count && self.column_count > 0 {
            let mut m = String::new();
            push_str(&mut m, "Row has ");
            let got = usize_to_string(row.len());
            push_str(&mut m, got.as_str());
            push_str(&mut m, " columns, expected ");
            let want = usize_to_string(self.column_count);
            push_str(&mut m, want.as_str());
            proof {
                reveal_strlit("Row has ");
                reveal_strlit(" columns, expected ");
            }
            assert(m@ =~= mismatch_msg(row@.len(), self.column_count as nat));
            return Err(m);
        }
        let ghost old_held = self.buffer@;
        let ghost first = self.column_widths@.len() == 0;
        let ghost size = self.config.buffer_size as nat;
        let ghost s0 = (Seq::<Seq<char>>::empty(), old_held);
        let mut out: Vec<String> = Vec::new();
        let ghost mut pieces: Seq<Seq<char>> = Seq::empty();
        assert(views(out@) =~= Seq::<Seq<char>>::empty());
        if self.column_widths.len() == 0 {
            let mut ws: Vec<usize> = Vec::new();
            let mut i: usize = 0;
            while i < row.len()
                invariant
                    i <= row@.len(),
                    ws@.len() == i,
                    forall|k: int| 0 <= k < i ==> #[trigger] ws@[k] as nat == byte_len(row@[k]@),
                decreases row@.len() - i,
            {
                ws.push(row[i].as_str().as_bytes().len());
                i = i + 1;
            }
            assert(ws@.map_values(|w: usize| w as nat) =~= byte_widths(views(row@)));
            self.column_count = ws.len();
            self.column_widths = ws;
            if self.config.options.show_top_border {
                let line = self.top_border();
                self.push_piece(line, &mut out);
                proof {
                    lemma_after_push(s0, pieces, line@, size);
                    pieces = pieces.push(line@);
                }
            }
        }
        assert((views(out@), self.buffer@) == after_pieces(s0, pieces, size));
        let ghost w = self.column_widths@.map_values(|x: usize| x as nat);
        if self.config.options.show_row_separators && self.row_count > 0 {
            let line = self.separator();
            self.push_piece(line, &mut out);
            proof {
                lemma_after_push(s0, pieces, line@, size);
                pieces = pieces.push(line@);
            }
        }
        let line = self.data_row(row);
        self.push_piece(line, &mut out);
        proof {
            lemma_after_push(s0, pieces, line@, size);
            pieces = pieces.push(line@);
            assert(pieces =~= row_pieces(self.config, first, w, self.row_count as nat, views(row@)));
        }
        self.row_count = self.row_count + 1;
        if self.config.flush_on_row {
            self.flush(&mut out);
        }
        Ok(out)
    }

    /// Adds rows in order, stopping at the first refused one (see `rows_steps`); gives back
    /// all chunks handed out, or the first refusal.
#[verifier::spinoff_prover]
    pub fn add_rows(&mut self, rows: &[Vec<String>]) -> (res: Result<Vec<String>, String>)
        requires
            old(self).count() + rows@.len() <= usize::MAX,
            forall|i: int|
                0 <= i < rows@.len() ==> stream_cells_ok(
                    views(#[trigger] rows@[i]@),
                    old(self).config().column_configs@,
                ),
        ensures
            final(self).config() == old(self).config(),
            match rows_steps(old(self).config(), old(self).snap(), rows@.map_values(|r: Vec<String>| views(r@))) {
                Err(m) => (res matches Err(e) && e@ == m),
                Ok((chunks, s)) => (res matches Ok(c) && views(c@) == chunks && final(self).snap() == s),
            },
            res is Err ==> exists|k: int| #[trigger] stopped_at(
                old(self).config(),
                old(self).snap(),
                crate::utils::formatting::table_view(rows@),
                k,
                final(self).snap(),
            ),
    {
        let ghost t = rows@.map_values(|r: Vec<String>| views(r@));
        let ghost s0 = self.snap();
        let mut all: Vec<String> = Vec::new();
        let mut i: usize = 0;
        assert(t.take(0) =~= Seq::<Seq<Seq<char>>>::empty());
        assert(views(all@) =~= Seq::<Seq<char>>::empty());
        while i < rows.len()
            invariant
                i <= rows@.len(),
                t == rows@.map_values(|r: Vec<String>| views(r@)),
                self.config() == old(self).config(),
                s0 == old(self).snap(),
                self.count() == old(self).count() + i,
                old(self).count() + rows@.len() <= usize::MAX,
                forall|k: int|
                    0 <= k < rows@.len() ==> stream_cells_ok(
                        views(#[trigger] rows@[k]@),
                        old(self).config().column_configs@,
                    ),
                rows_steps(self.config(), s0, t.take(i as int)) == Ok::<(Seq<Seq<char>>, StreamSnap), Seq<char>>(
                    (views(all@), self.snap()),
                ),
            decreases rows@.len() - i,
        {
            assert(stream_cells_ok(views(rows@[i as int]@), old(self).config().column_configs@));
            assert(t.take(i + 1).drop_last() =~= t.take(i as int));
            assert(t.take(i + 1).last() == views(rows@[i as int]@));
            let chunks = self.add_row(rows[i].as_slice());
            match chunks {
                Ok(mut c) => {
                    let ghost before = views(all@);
                    let ghost more = views(c@);
                    all.append(&mut c);
                    assert(views(all@) =~= before + more);
                },
                Err(e) => {
                    assert(t.take(i as int + 1) == t.take(i + 1));
                    let ghost k = i + 1;
                    assert(rows_steps(self.config(), s0, t.take(k as int)) is Err);
                    proof {
                        lemma_steps_err(self.config(), s0, t, k as int);
                        assert(t.take(i + 1).last() == t[i as int]);
                        assert(stopped_at(self.config(), s0, t, i as int, self.snap()));
                        assert(t =~= crate::utils::formatting::table_view(rows@));
                    }
                    return Err(e);
                },
            }
            i = i + 1;
        }
        assert(t.take(i as int) =~= t);
        Ok(all)
    }

    /// Adds the bottom line (when shown) and hands out all that is held; gives back the
    /// chunks.
    pub fn finalize(self) -> (res: Vec<String>)
        ensures
            views(res@) == after_flush(
                after_pieces(
                    (Seq::empty(), self.held()),
                    if self.config().options.show_bottom_border {
                        seq![bottom_line(self.config(), self.widths())]
                    } else {
                        Seq::empty()
                    },
                    self.config().buffer_size as nat,
                ),
            ).0,
    {
        let mut this = self;
        let mut out: Vec<String> = Vec::new();
        assert(views(out@) =~= Seq::<Seq<char>>::empty());
        let ghost s0 = (views(out@), this.buffer@);
        if this.config.options.show_bottom_border {
            let line = this.bottom_border();
            this.push_piece(line, &mut out);
            proof {
                lemma_after_push(s0, Seq::empty(), line@, this.config.buffer_size as nat);
                assert(Seq::<Seq<char>>::empty().push(line@) =~= seq![line@]);
            }
        }
        this.flush(&mut out);
        out
    }
}

/// The settings of column `i`: its own, or the defaults past the given ones.
fn column_at(cfgs: &[ColumnConfig], i: usize) -> (res: ColumnConfig)
    ensures
        layout_of(res) == stream_layout(cfgs@, i as int),
{
    if i < cfgs.len() {
        cfgs[i].duplicate()
    } else {
        ColumnConfig::default()
    }
}

/// Builds the settings of a table written row by row.
pub struct StreamingTableBuilder {
    config: StreamingTableConfig,
}

impl Default for StreamingTableBuilder {
    /// A builder with the default settings.
    fn default() -> (res: Self)
        ensures
            res.config().border == honeywell_chars(),
            res.config().options == default_stream_options(),
            res.config().column_configs@.len() == 0,
            res.config().buffer_size == 8192,
            !res.config().flush_on_row,
    {
        Self::new()
    }
}

impl StreamingTableBuilder {
    /// The settings built so far.
    pub closed spec fn config(&self) -> StreamingTableConfig {
        self.config
    }

    /// A builder with the default settings.
    pub fn new() -> (res: Self)
        ensures
            res.config().border == honeywell_chars(),
            res.config().options == default_stream_options(),
            res.config().column_configs@.len() == 0,
            res.config().buffer_size == 8192,
            !res.config().flush_on_row,
    {
        StreamingTableBuilder { config: StreamingTableConfig::default() }
    }

    /// The builder with another border.
    pub fn with_border(self, border: BorderChars) -> (res: Self)
        ensures
            res.config().border == border,
            res.config().options == self.config().options,
            res.config().column_configs@ == self.config().column_configs@,
            res.config().buffer_size == self.config().buffer_size,
            res.config().flush_on_row == self.config().flush_on_row,
    {
        StreamingTableBuilder { config: self.config.with_border(border) }
    }

    /// The builder with other line options.
    pub fn with_options(self, options: RenderOptions) -> (res: Self)
        ensures
            res.config().border == self.config().border,
            res.config().options == options,
            res.config().column_configs@ == self.config().column_configs@,
            res.config().buffer_size == self.config().buffer_size,
            res.config().flush_on_row == self.config().flush_on_row,
    {
        StreamingTableBuilder { config: self.config.with_options(options) }
    }

    /// The builder with other column settings.
    pub fn with_column_configs(self, configs: Vec<ColumnConfig>) -> (res: Self)
        ensures
            res.config().border == self.config().border,
            res.config().options == self.config().options,
            res.config().column_configs@ == configs@,
            res.config().buffer_size == self.config().buffer_size,
            res.config().flush_on_row == self.config().flush_on_row,
    {
        StreamingTableBuilder { config: self.config.with_column_configs(configs) }
    }

    /// The builder holding another number of bytes.
    pub fn with_buffer_size(self, size: usize) -> (res: Self)
        ensures
            res.config().border == self.config().border,
            res.config().options == self.config().options,
            res.config().column_configs@ == self.config().column_configs@,
            res.config().buffer_size == size,
            res.config().flush_on_row == self.config().flush_on_row,
    {
        StreamingTableBuilder { config: self.config.with_buffer_size(size) }
    }

    /// The builder handing out every row at once.
    pub fn with_auto_flush(self) -> (res: Self)
        ensures
            res.config().border == self.config().border,
            res.config().options == self.config().options,
            res.config().column_configs@ == self.config().column_configs@,
            res.config().buffer_size == self.config().buffer_size,
            res.config().flush_on_row,
    {
        StreamingTableBuilder { config: self.config.with_flush_on_row() }
    }

    /// A writer with the settings built.
    pub fn build(self) -> (res: StreamingTableWriter)
        ensures
            res.config() == self.config(),
            res.widths().len() == 0,
            res.held().len() == 0,
            res.count() == 0,
            res.columns() == 0,
    {
        StreamingTableWriter::new(self.config)
    }
}

} // verus!
