use crate::ansi::{all_digits, digits_value, is_digit, lemma_digits_grow, unsigned_digits};
use crate::text::{chars_of, concat2, concat3, decimal, owned, split_pieces, split_str, trim, trim_spec, usize_to_string, views};
use crate::types::borders::{border_view, get_border_characters, named_style};
use crate::types::{BorderConfig, BorderUserConfig, ColumnUserConfig, Row, StreamUserConfig, TableError, TableResult, TableUserConfig};
use crate::utils::formatting::table_view;
use crate::{table, table_outcome};
use crate::features::streaming::{lines_ok, row_lines, stream_row_text, TableStream};
use crate::pipeline::calculator::nats;
use crate::pipeline::renderer::{border_line_spec, draw_border_line, BorderType};
use vstd::prelude::*;

verus! {

/// The product of sample row `k` (of the fifteen, in turn).
pub open spec fn product_name(k: int) -> Seq<char> {
    if k == 0 {
        "Gaming\nLaptop"@
    } else if k == 1 {
        "Wireless\nMouse"@
    } else if k == 2 {
        "Mechanical\nKeyboard"@
    } else if k == 3 {
        "4K\nMonitor"@
    } else if k == 4 {
        "Bluetooth\nSpeakers"@
    } else if k == 5 {
        "HD\nWebcam"@
    } else if k == 6 {
        "Noise-Cancelling\nHeadphones"@
    } else if k == 7 {
        "Android\nTablet"@
    } else if k == 8 {
        "Smartphone\nPro"@
    } else if k == 9 {
        "Fast\nCharger"@
    } else if k == 10 {
        "USB-C\nCable"@
    } else if k == 11 {
        "Power\nAdapter"@
    } else if k == 12 {
        "WiFi\nRouter"@
    } else if k == 13 {
        "Network\nSwitch"@
    } else {
        "Laser\nPrinter"@
    }
}

fn product_text(k: usize) -> (res: &'static str)
    requires
        k < 15,
    ensures
        res@ == product_name(k as int),
{
    if k == 0 {
        "Gaming\nLaptop"
    } else if k == 1 {
        "Wireless\nMouse"
    } else if k == 2 {
        "Mechanical\nKeyboard"
    } else if k == 3 {
        "4K\nMonitor"
    } else if k == 4 {
        "Bluetooth\nSpeakers"
    } else if k == 5 {
        "HD\nWebcam"
    } else if k == 6 {
        "Noise-Cancelling\nHeadphones"
    } else if k == 7 {
        "Android\nTablet"
    } else if k == 8 {
        "Smartphone\nPro"
    } else if k == 9 {
        "Fast\nCharger"
    } else if k == 10 {
        "USB-C\nCable"
    } else if k == 11 {
        "Power\nAdapter"
    } else if k == 12 {
        "WiFi\nRouter"
    } else if k == 13 {
        "Network\nSwitch"
    } else {
        "Laser\nPrinter"
    }
}

/// The status of sample row `k` (of the five, in turn), plain or coloured with its mark.
pub open spec fn status_name(k: int, colors: bool) -> Seq<char> {
    if !colors {
        if k == 0 {
            "Active"@
        } else if k == 1 {
            "Sold"@
        } else if k == 2 {
            "Pending"@
        } else if k == 3 {
            "Shipped"@
        } else {
            "Delivered"@
        }
    } else {
        if k == 0 {
            "\u{1b}[32m✓ Active\u{1b}[0m"@
        } else if k == 1 {
            "\u{1b}[31m✗ Sold\u{1b}[0m"@
        } else if k == 2 {
            "\u{1b}[33m⚠ Pending\u{1b}[0m"@
        } else if k == 3 {
            "\u{1b}[36m🚚 Shipped\u{1b}[0m"@
        } else {
            "\u{1b}[35m📦 Delivered\u{1b}[0m"@
        }
    }
}

fn status_text(k: usize, colors: bool) -> (res: &'static str)
    requires
        k < 5,
    ensures
        res@ == status_name(k as int, colors),
{
    if !colors {
        if k == 0 {
            "Active"
        } else if k == 1 {
            "Sold"
        } else if k == 2 {
            "Pending"
        } else if k == 3 {
            "Shipped"
        } else {
            "Delivered"
        }
    } else {
        if k == 0 {
            "\u{1b}[32m✓ Active\u{1b}[0m"
        } else if k == 1 {
            "\u{1b}[31m✗ Sold\u{1b}[0m"
        } else if k == 2 {
            "\u{1b}[33m⚠ Pending\u{1b}[0m"
        } else if k == 3 {
            "\u{1b}[36m🚚 Shipped\u{1b}[0m"
        } else {
            "\u{1b}[35m📦 Delivered\u{1b}[0m"
        }
    }
}

/// The header of the sample table, plain or coloured.
pub open spec fn demo_header(colors: bool) -> Seq<Seq<char>> {
    if colors {
        seq![
            "\u{1b}[1;36mID\u{1b}[0m"@,
            "\u{1b}[1;32mProduct\u{1b}[0m"@,
            "\u{1b}[1;33mPrice\u{1b}[0m"@,
            "\u{1b}[1;35mStatus\u{1b}[0m"@,
        ]
    } else {
        seq!["ID"@, "Product"@, "Price"@, "Status"@]
    }
}

/// Sample row `i`: its number from 1, a product, the price `$` and `25 (i + 1) + 99`, and a
/// status; coloured, each cell is wrapped in its colour.
pub open spec fn demo_row(i: nat, colors: bool) -> Seq<Seq<char>> {
    let id = decimal(i + 1);
    let product = product_name((i % 15) as int);
    let price = "$"@ + decimal((i + 1) * 25 + 99);
    let status = status_name((i % 5) as int, colors);
    if colors {
        seq![
            "\u{1b}[37m"@ + id + "\u{1b}[0m"@,
            "\u{1b}[34m"@ + product + "\u{1b}[0m"@,
            "\u{1b}[32m"@ + price + "\u{1b}[0m"@,
            status,
        ]
    } else {
        seq![id, product, price, status]
    }
}

/// The sample table: the header and `rows` sample rows.
pub open spec fn demo_rows_spec(rows: nat, colors: bool) -> Seq<Seq<Seq<char>>> {
    seq![demo_header(colors)] + Seq::new(rows, |i: int| demo_row(i as nat, colors))
}

fn cells4(a: String, b: String, c: String, d: String) -> (res: Row)
    ensures
        views(res@) == seq![a@, b@, c@, d@],
{
    let mut v: Vec<String> = Vec::new();
    v.push(a);
    v.push(b);
    v.push(c);
    v.push(d);
    assert(views(v@) =~= seq![a@, b@, c@, d@]);
    v
}

fn demo_header_row(colors: bool) -> (res: Row)
    ensures
        views(res@) == demo_header(colors),
{
    if colors {
        cells4(
            owned("\u{1b}[1;36mID\u{1b}[0m"),
            owned("\u{1b}[1;32mProduct\u{1b}[0m"),
            owned("\u{1b}[1;33mPrice\u{1b}[0m"),
            owned("\u{1b}[1;35mStatus\u{1b}[0m"),
        )
    } else {
        cells4(owned("ID"), owned("Product"), owned("Price"), owned("Status"))
    }
}

fn demo_row_exec(i: usize, colors: bool) -> (res: Row)
    requires
        (i + 1) * 25 + 99 <= usize::MAX,
    ensures
        views(res@) == demo_row(i as nat, colors),
{
    let id = usize_to_string(i + 1);
    let product = product_text(i % 15);
    let price = concat2("$", usize_to_string((i + 1) * 25 + 99).as_str());
    let status = status_text(i % 5, colors);
    if colors {
        cells4(
            concat3("\u{1b}[37m", id.as_str(), "\u{1b}[0m"),
            concat3("\u{1b}[34m", product, "\u{1b}[0m"),
            concat3("\u{1b}[32m", price.as_str(), "\u{1b}[0m"),
            owned(status),
        )
    } else {
        cells4(id, owned(product), price, owned(status))
    }
}

/// The sample table of the demos (see `demo_rows_spec`).
pub fn demo_rows(rows: usize, colors: bool) -> (res: Vec<Row>)
    requires
        rows * 25 + 99 <= usize::MAX,
    ensures
        table_view(res@) == demo_rows_spec(rows as nat, colors),
{
    let mut out: Vec<Row> = Vec::new();
    out.push(demo_header_row(colors));
    let mut i: usize = 0;
    while i < rows
        invariant
            i <= rows,
            rows * 25 + 99 <= usize::MAX,
            table_view(out@) == seq![demo_header(colors)] + Seq::new(i as nat, |k: int| demo_row(k as nat, colors)),
        decreases rows - i,
    {
        let row = demo_row_exec(i, colors);
        let ghost before = table_view(out@);
        out.push(row);
        assert(table_view(out@) =~= before.push(demo_row(i as nat, colors)));
        assert(seq![demo_header(colors)] + Seq::new((i + 1) as nat, |k: int| demo_row(k as nat, colors)) =~= before.push(
            demo_row(i as nat, colors),
        ));
        i = i + 1;
    }
    out
}

/// What `usize::from_str` gives: an optional `+`, then at least one digit and nothing else,
/// writing at most `usize::MAX`.
pub open spec fn parse_usize_spec(q: Seq<char>) -> Option<usize> {
    let d = unsigned_digits(q);
    if d.len() > 0 && all_digits(d) && digits_value(d) <= usize::MAX {
        Some(digits_value(d) as usize)
    } else {
        None
    }
}

/// The number a text writes (see `parse_usize_spec`).
pub fn parse_usize(s: &str) -> (res: Option<usize>)
    ensures
        res == parse_usize_spec(s@),
{
    let v = chars_of(s);
    let ghost q = v@;
    let end = v.len();
    let mut st: usize = 0;
    if st < end && v[st] == '+' {
        st = 1;
    }
    let ghost d = v@.subrange(st as int, end as int);
    assert(d =~= unsigned_digits(q));
    if st == end {
        return None;
    }
    let mut value: usize = 0;
    let mut i = st;
    while i < end
        invariant
            st <= i <= end == v@.len(),
            q == v@,
            q == s@,
            d == v@.subrange(st as int, end as int),
            d == unsigned_digits(q),
            value == digits_value(d.take(i - st)),
            forall|k: int| 0 <= k < i - st ==> is_digit(#[trigger] d[k]),
        decreases end - i,
    {
        let c = v[i];
        if !('0' <= c && c <= '9') {
            assert(!is_digit(d[i - st]));
            assert(!all_digits(d));
            return None;
        }
        assert(d.take(i - st + 1).drop_last() =~= d.take(i - st));
        let digit: usize = ((c as u32) - ('0' as u32)) as usize;
        if value > (usize::MAX - digit) / 10 {
            proof {
                assert(digits_value(d.take(i - st + 1)) == value * 10 + digit);
                lemma_digits_grow(d, (i + 1 - st) as int);
                if all_digits(d) {
                    assert(d.take(d.len() as int) =~= d);
                }
            }
            return None;
        }
        value = value * 10 + digit;
        i = i + 1;
    }
    assert(d.take(i - st) =~= d);
    Some(value)
}

/// The column widths a demo asks for: 6, 12, 8 and 12 when none are given; else each
/// comma-separated piece, trimmed, as a number, when all of them are numbers; else none.
pub open spec fn demo_widths(widths: Option<Seq<char>>) -> Option<Seq<usize>> {
    match widths {
        None => Some(seq![6usize, 12, 8, 12]),
        Some(s) => {
            let ps = split_pieces(s, ","@);
            if forall|k: int| 0 <= k < ps.len() ==> #[trigger] parse_usize_spec(trim_spec(ps[k])) is Some {
                Some(Seq::new(ps.len(), |k: int| parse_usize_spec(trim_spec(ps[k]))->Some_0))
            } else {
                None
            }
        },
    }
}

/// A column setting that gives the width alone.
pub open spec fn width_column(w: usize) -> ColumnUserConfig {
    ColumnUserConfig {
        alignment: None,
        vertical_alignment: None,
        padding_left: None,
        padding_right: None,
        truncate: None,
        wrap_word: None,
        width: Some(w),
    }
}

/// Whether `cols` are the column settings for the widths `ws` (see `width_column`).
pub open spec fn columns_for(cols: Option<Vec<ColumnUserConfig>>, ws: Option<Seq<usize>>) -> bool {
    match ws {
        None => cols is None,
        Some(w) => cols matches Some(c) && c@ == w.map_values(|x: usize| width_column(x)),
    }
}

/// The optional text as a sequence.
pub open spec fn opt_view(s: Option<&str>) -> Option<Seq<char>> {
    match s {
        Some(t) => Some(t@),
        None => None,
    }
}

/// The column settings a demo uses (see `demo_widths`).
pub fn demo_columns(widths: Option<&str>) -> (res: Option<Vec<ColumnUserConfig>>)
    ensures
        columns_for(res, demo_widths(opt_view(widths))),
{
    match widths {
        None => {
            let mut v: Vec<ColumnUserConfig> = Vec::new();
            v.push(ColumnUserConfig { width: Some(6), ..ColumnUserConfig::default() });
            v.push(ColumnUserConfig { width: Some(12), ..ColumnUserConfig::default() });
            v.push(ColumnUserConfig { width: Some(8), ..ColumnUserConfig::default() });
            v.push(ColumnUserConfig { width: Some(12), ..ColumnUserConfig::default() });
            assert(v@ =~= seq![6usize, 12, 8, 12].map_values(|x: usize| width_column(x)));
            Some(v)
        },
        Some(s) => {
            let pieces = split_str(s, ",");
            let ghost ps = split_pieces(s@, ","@);
            let mut v: Vec<ColumnUserConfig> = Vec::new();
            let mut k: usize = 0;
            while k < pieces.len()
                invariant
                    k <= pieces@.len(),
                    views(pieces@) == ps,
                    ps == split_pieces(s@, ","@),
                    opt_view(widths) == Some(s@),
                    v@.len() == k,
                    forall|j: int| 0 <= j < k ==> #[trigger] parse_usize_spec(trim_spec(ps[j])) is Some,
                    forall|j: int|
                        0 <= j < k ==> #[trigger] v@[j] == width_column(parse_usize_spec(trim_spec(ps[j]))->Some_0),
                decreases pieces@.len() - k,
            {
                let t = trim(pieces[k].as_str());
                assert(ps[k as int] == pieces@[k as int]@);
                match parse_usize(t.as_str()) {
                    Some(w) => {
                        v.push(ColumnUserConfig { width: Some(w), ..ColumnUserConfig::default() });
                    },
                    None => {
                        assert(parse_usize_spec(trim_spec(ps[k as int])) is None);
                        assert(demo_widths(opt_view(widths)) is None);
                        return None;
                    },
                }
                k = k + 1;
            }
            let ghost ws = Seq::new(ps.len(), |j: int| parse_usize_spec(trim_spec(ps[j]))->Some_0);
            assert(demo_widths(opt_view(widths)) == Some(ws));
            assert(v@ =~= ws.map_values(|x: usize| width_column(x)));
            Some(v)
        },
    }
}

/// Whether a border setting gives every piece, the given piece views being `p` in field
/// order.
pub open spec fn gives_pieces(b: BorderUserConfig, p: Seq<Seq<char>>) -> bool {
    forall|d: BorderConfig| #[trigger] crate::types::borders::merged_border_view(b, d) == p
}

/// Every piece of a border, given.
fn all_given(b: BorderConfig) -> (res: BorderUserConfig)
    ensures
        gives_pieces(res, border_view(b)),
{
    let res = BorderUserConfig {
        top_body: Some(b.top_body),
        top_join: Some(b.top_join),
        top_left: Some(b.top_left),
        top_right: Some(b.top_right),
        bottom_body: Some(b.bottom_body),
        bottom_join: Some(b.bottom_join),
        bottom_left: Some(b.bottom_left),
        bottom_right: Some(b.bottom_right),
        body_left: Some(b.body_left),
        body_right: Some(b.body_right),
        body_join: Some(b.body_join),
        header_join: Some(b.header_join),
        join_body: Some(b.join_body),
        join_left: Some(b.join_left),
        join_right: Some(b.join_right),
        join_join: Some(b.join_join),
    };
    assert forall|d: BorderConfig| #[trigger] crate::types::borders::merged_border_view(res, d) == border_view(b) by {
        assert(crate::types::borders::merged_border_view(res, d) =~= border_view(b));
    }
    res
}

/// Whether `u` is the table setting of the table demo: the named border's pieces all given,
/// the columns for the widths asked for, nothing else.
pub open spec fn demo_config_ok(u: TableUserConfig, pieces: Seq<Seq<char>>, widths: Option<Seq<char>>) -> bool {
    &&& u.border matches Some(b) && gives_pieces(b, pieces)
    &&& columns_for(u.columns, demo_widths(widths))
    &&& u.column_default is None
    &&& u.single_line is None
    &&& u.spanning_cells is None
    &&& u.header is None
}

/// The table setting of the table demo (see `demo_config_ok`), or the error for an unknown
/// border name.
pub fn demo_config(border: &str, widths: Option<&str>) -> (res: TableResult<TableUserConfig>)
    ensures
        named_style(border@) is None ==> (res matches Err(TableError::InvalidConfig(m)) && m@
            == "Unknown border style: "@ + border@),
        named_style(border@) matches Some(p) ==> (res matches Ok(u) && demo_config_ok(u, p, opt_view(widths))),
{
    let b = match get_border_characters(border) {
        Ok(b) => b,
        Err(e) => {
            return Err(e);
        },
    };
    Ok(
        TableUserConfig {
            border: Some(all_given(b)),
            columns: demo_columns(widths),
            column_default: None,
            single_line: None,
            spanning_cells: None,
            header: None,
        },
    )
}

/// The table demo's output: the sample table drawn with the named border and the columns
/// asked for, or the error for an unknown border name.
pub fn table_demo_output(rows: usize, border: &str, colors: bool, widths: Option<&str>) -> (res: TableResult<String>)
    requires
        rows * 25 + 99 <= usize::MAX,
    ensures
        named_style(border@) is None ==> (res matches Err(TableError::InvalidConfig(m)) && m@
            == "Unknown border style: "@ + border@),
        named_style(border@) matches Some(p) ==> exists|u: TableUserConfig|
            #[trigger] demo_config_ok(u, p, opt_view(widths)) && table_outcome(
                res,
                demo_rows_spec(rows as nat, colors),
                Some(u),
            ),
{
    let config = match demo_config(border, widths) {
        Ok(c) => c,
        Err(e) => {
            return Err(e);
        },
    };
    let data = demo_rows(rows, colors);
    let res = table(data.as_slice(), Some(&config));
    assert(demo_config_ok(config, named_style(border@)->Some_0, opt_view(widths)));
    res
}

/// Whether `u` is the stream setting of the streaming demo: the named border's pieces all
/// given, the columns for the widths asked for, nothing else.
pub open spec fn demo_stream_config_ok(u: StreamUserConfig, pieces: Seq<Seq<char>>, widths: Option<Seq<char>>) -> bool {
    &&& u.border matches Some(b) && gives_pieces(b, pieces)
    &&& columns_for(u.columns, demo_widths(widths))
    &&& u.column_default is None
    &&& u.single_line is None
}

/// The stream setting of the streaming demo (see `demo_stream_config_ok`), or the error for
/// an unknown border name.
pub fn demo_stream_config(border: &str, widths: Option<&str>) -> (res: TableResult<StreamUserConfig>)
    ensures
        named_style(border@) is None ==> (res matches Err(TableError::InvalidConfig(m)) && m@
            == "Unknown border style: "@ + border@),
        named_style(border@) matches Some(p) ==> (res matches Ok(u) && demo_stream_config_ok(u, p, opt_view(widths))),
{
    let b = match get_border_characters(border) {
        Ok(b) => b,
        Err(e) => {
            return Err(e);
        },
    };
    Ok(StreamUserConfig { border: Some(all_given(b)), columns: demo_columns(widths), column_default: None, single_line: None })
}

/// The widths of the streaming demo's bottom line: each column's width (10 where it gives
/// none), or 6, 12, 8 and 12 without column settings.
pub open spec fn demo_line_widths(cols: Option<Vec<ColumnUserConfig>>) -> Seq<usize> {
    match cols {
        Some(c) => c@.map_values(|x: ColumnUserConfig| match x.width {
            Some(w) => w,
            None => 10usize,
        }),
        None => seq![6usize, 12, 8, 12],
    }
}

/// The widths of the streaming demo's bottom line (see `demo_line_widths`).
pub fn demo_stream_widths(cols: &Option<Vec<ColumnUserConfig>>) -> (res: Vec<usize>)
    ensures
        res@ == demo_line_widths(*cols),
{
    match cols {
        Some(c) => {
            let mut out: Vec<usize> = Vec::new();
            let mut k: usize = 0;
            while k < c.len()
                invariant
                    k <= c@.len(),
                    out@ == c@.take(k as int).map_values(|x: ColumnUserConfig| match x.width {
                        Some(w) => w,
                        None => 10usize,
                    }),
                decreases c@.len() - k,
            {
                let w = match c[k].width {
                    Some(w) => w,
                    None => 10,
                };
                out.push(w);
                k = k + 1;
                assert(out@ =~= c@.take(k as int).map_values(|x: ColumnUserConfig| match x.width {
                    Some(w) => w,
                    None => 10usize,
                }));
            }
            assert(c@.take(k as int) =~= c@);
            out
        },
        None => {
            let mut out: Vec<usize> = Vec::new();
            out.push(6);
            out.push(12);
            out.push(8);
            out.push(12);
            assert(out@ =~= seq![6usize, 12, 8, 12]);
            out
        },
    }
}

/// What goes before sample row `i` of the streaming demo: from the second row on, the
/// terminal codes that move up one line and clear it, taking back the last bottom line.
pub open spec fn step_prefix(i: nat) -> Seq<char> {
    if i > 0 {
        "\u{1b}[1A\u{1b}[0K"@
    } else {
        Seq::empty()
    }
}

/// One step of the streaming demo: sample row `i` (the table row after the header) written
/// to the stream, after `step_prefix(i)` and followed by a bottom line over `widths` and a
/// line feed; the stream changes as `TableStream::write_row` changes it, and a refused row
/// gives its error.
pub fn stream_demo_step(stream: &mut TableStream, rows: &[Row], i: usize, widths: &[usize], border: &BorderConfig) -> (res: TableResult<String>)
    requires
        i + 1 < rows@.len(),
        old(stream).count() < usize::MAX,
    ensures
        old(stream).widths().len() != 0 ==> final(stream).config() == old(stream).config()
            && final(stream).widths() == old(stream).widths(),
        res is Ok <==> rows@[i + 1]@.len() == final(stream).widths().len() && lines_ok(
            row_lines(views(rows@[i + 1]@), final(stream).config()),
            final(stream).config(),
            final(stream).widths(),
        ),
        res matches Ok(s) ==> s@ == step_prefix(i as nat) + stream_row_text(
            views(rows@[i + 1]@),
            final(stream).config(),
            final(stream).widths(),
            old(stream).is_first(),
        ) + border_line_spec(nats(widths@), *border, BorderType::Bottom) + "\n"@,
        res is Err && old(stream).widths().len() != 0 ==> *final(stream) == *old(stream),
{
    let n = rows.len();
    assert(i + 1 < n);
    let out = match stream.write_row(rows[i + 1].as_slice()) {
        Ok(o) => o,
        Err(e) => {
            return Err(e);
        },
    };
    let bottom = draw_border_line(widths, border, BorderType::Bottom);
    let body = concat3(out.as_str(), bottom.as_str(), "\n");
    if i > 0 {
        Ok(concat2("\u{1b}[1A\u{1b}[0K", body.as_str()))
    } else {
        proof {
            reveal_strlit("");
        }
        assert(body@ =~= step_prefix(i as nat) + body@);
        Ok(body)
    }
}

} // verus!
