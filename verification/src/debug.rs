use crate::alignment::ColumnConfig;
use crate::types::Alignment;
use crate::vertical_alignment::VerticalAlignment;
use crate::wrapping::{WrapConfig, WrapMode};
use crate::border::BorderChars;
use crate::renderer::RenderOptions;
use crate::table_data::{byte_column_widths, column_count_of, plain_table_spec, first_bad_row, TableData};
use crate::text::{
    chars_of, concat_all, concat_strings, decimal, is_ascii_alpha, is_ascii_digit, join_seq, owned,
    push_char, push_str, usize_to_string, views,
};
use crate::unicode::unicode_column_max;
use crate::utils::ansi::byte_len;
use crate::utils::formatting::table_view;
use vstd::utf8::{decode_utf8, encode_utf8, is_char_boundary};
use vstd::prelude::*;

verus! {

/// What a table analysis shows.
#[derive(Debug, Clone, Copy, PartialEq, Eq, Structural)]
pub struct DebugConfig {
    pub show_dimensions: bool,
    pub show_column_widths: bool,
    pub show_cell_contents: bool,
    pub show_border_info: bool,
    pub show_alignment_info: bool,
    pub show_performance_stats: bool,
    pub max_cell_preview: usize,
    pub compact_output: bool,
    pub use_colors: bool,
}

impl Default for DebugConfig {
    /// Dimensions, column widths and cell contents (up to 20 bytes a cell), in colour.
    fn default() -> (res: Self)
        ensures
            res == (DebugConfig {
                show_dimensions: true,
                show_column_widths: true,
                show_cell_contents: true,
                show_border_info: false,
                show_alignment_info: false,
                show_performance_stats: false,
                max_cell_preview: 20,
                compact_output: false,
                use_colors: true,
            }),
    {
        DebugConfig {
            show_dimensions: true,
            show_column_widths: true,
            show_cell_contents: true,
            show_border_info: false,
            show_alignment_info: false,
            show_performance_stats: false,
            max_cell_preview: 20,
            compact_output: false,
            use_colors: true,
        }
    }
}

impl DebugConfig {
    /// The default settings.
    pub fn new() -> (res: Self)
        ensures
            res == (DebugConfig {
                show_dimensions: true,
                show_column_widths: true,
                show_cell_contents: true,
                show_border_info: false,
                show_alignment_info: false,
                show_performance_stats: false,
                max_cell_preview: 20,
                compact_output: false,
                use_colors: true,
            }),
    {
        Self::default()
    }

    /// Everything shown, up to 50 bytes a cell, in colour.
    pub fn verbose() -> (res: Self)
        ensures
            res == (DebugConfig {
                show_dimensions: true,
                show_column_widths: true,
                show_cell_contents: true,
                show_border_info: true,
                show_alignment_info: true,
                show_performance_stats: true,
                max_cell_preview: 50,
                compact_output: false,
                use_colors: true,
            }),
    {
        DebugConfig {
            show_dimensions: true,
            show_column_widths: true,
            show_cell_contents: true,
            show_border_info: true,
            show_alignment_info: true,
            show_performance_stats: true,
            max_cell_preview: 50,
            compact_output: false,
            use_colors: true,
        }
    }

    /// Dimensions and a short preview of cells (10 bytes), compact, without colour.
    pub fn compact() -> (res: Self)
        ensures
            res == (DebugConfig {
                show_dimensions: true,
                show_column_widths: false,
                show_cell_contents: true,
                show_border_info: false,
                show_alignment_info: false,
                show_performance_stats: false,
                max_cell_preview: 10,
                compact_output: true,
                use_colors: false,
            }),
    {
        DebugConfig {
            show_dimensions: true,
            show_column_widths: false,
            show_cell_contents: true,
            show_border_info: false,
            show_alignment_info: false,
            show_performance_stats: false,
            max_cell_preview: 10,
            compact_output: true,
            use_colors: false,
        }
    }

    /// Dimensions only, without colour.
    pub fn minimal() -> (res: Self)
        ensures
            res == (DebugConfig {
                show_dimensions: true,
                show_column_widths: false,
                show_cell_contents: false,
                show_border_info: false,
                show_alignment_info: false,
                show_performance_stats: false,
                max_cell_preview: 0,
                compact_output: true,
                use_colors: false,
            }),
    {
        DebugConfig {
            show_dimensions: true,
            show_column_widths: false,
            show_cell_contents: false,
            show_border_info: false,
            show_alignment_info: false,
            show_performance_stats: false,
            max_cell_preview: 0,
            compact_output: true,
            use_colors: false,
        }
    }
}

/// An ASCII whitespace character (`char::is_ascii_whitespace`).
pub open spec fn is_ascii_ws(c: char) -> bool {
    c == ' ' || c == '\t' || c == '\n' || c == '\u{0C}' || c == '\r'
}

/// Every character is an ASCII digit.
pub open spec fn all_digits_text(s: Seq<char>) -> bool {
    forall|i: int| 0 <= i < s.len() ==> is_ascii_digit(#[trigger] s[i])
}

/// Every character is an ASCII letter or ASCII whitespace.
pub open spec fn all_alpha_ws(s: Seq<char>) -> bool {
    forall|i: int| 0 <= i < s.len() ==> is_ascii_alpha(#[trigger] s[i]) || is_ascii_ws(s[i])
}

/// Every character is ASCII.
pub open spec fn all_ascii(s: Seq<char>) -> bool {
    forall|i: int| 0 <= i < s.len() ==> (#[trigger] s[i]) as u32 <= 0x7f
}

/// A sign character.
pub open spec fn is_sign(c: char) -> bool {
    c == '+' || c == '-'
}

/// `c` is `w` (a lower-case letter) or its upper case.
pub open spec fn same_letter(c: char, w: char) -> bool {
    c == w || ('A' <= c <= 'Z' && (c as u32) + 32 == (w as u32))
}

/// `s` equals `word` (lower case) ignoring ASCII case.
pub open spec fn eq_ignore_case(s: Seq<char>, word: Seq<char>) -> bool {
    s.len() == word.len() && forall|i: int| 0 <= i < s.len() ==> same_letter(#[trigger] s[i], word[i])
}

/// The number of `.` in `s`.
pub open spec fn dots(s: Seq<char>) -> nat
    decreases s.len(),
{
    if s.len() == 0 {
        0
    } else {
        dots(s.drop_last()) + if s.last() == '.' {
            1nat
        } else {
            0nat
        }
    }
}

/// The number of digits in `s`.
pub open spec fn digit_count(s: Seq<char>) -> nat
    decreases s.len(),
{
    if s.len() == 0 {
        0
    } else {
        digit_count(s.drop_last()) + if is_ascii_digit(s.last()) {
            1nat
        } else {
            0nat
        }
    }
}

/// The index of the first `e` or `E` in `s` from `i` on, or the length.
pub open spec fn exp_at(s: Seq<char>, i: int) -> int
    decreases s.len() - i,
{
    if i < 0 || i >= s.len() {
        s.len() as int
    } else if s[i] == 'e' || s[i] == 'E' {
        i
    } else {
        exp_at(s, i + 1)
    }
}

/// Digits with at most one `.` among them, and at least one digit.
pub open spec fn mantissa_ok(m: Seq<char>) -> bool {
    &&& forall|i: int| 0 <= i < m.len() ==> is_ascii_digit(#[trigger] m[i]) || m[i] == '.'
    &&& dots(m) <= 1
    &&& digit_count(m) >= 1
}

/// An optional sign and at least one digit.
pub open spec fn exponent_ok(x: Seq<char>) -> bool {
    let y = if x.len() > 0 && is_sign(x[0]) {
        x.drop_first()
    } else {
        x
    };
    y.len() >= 1 && all_digits_text(y)
}

/// Text that `str::parse::<f64>` accepts, as its documentation gives the grammar: an
/// optional sign, then `inf`, `infinity` or `nan` in any case, or digits with at most one
/// point (at least one digit) and an optional exponent (`e` or `E`, an optional sign,
/// digits).
pub open spec fn is_float_text(s: Seq<char>) -> bool {
    let b = if s.len() > 0 && is_sign(s[0]) {
        s.drop_first()
    } else {
        s
    };
    let e = exp_at(b, 0);
    ||| eq_ignore_case(b, "inf"@)
    ||| eq_ignore_case(b, "infinity"@)
    ||| eq_ignore_case(b, "nan"@)
    ||| (mantissa_ok(b.take(e)) && (e == b.len() || exponent_ok(b.skip(e + 1))))
}

/// The kind of a cell's data: 0 empty, 1 integer, 2 number, 3 one character, 4 text,
/// 5 several lines, 6 escape sequences, 7 non-ASCII, 8 mixed; the first that fits.
pub open spec fn kind_of(s: Seq<char>) -> nat {
    if s.len() == 0 {
        0
    } else if all_digits_text(s) {
        1
    } else if is_float_text(s) {
        2
    } else if byte_len(s) == 1 {
        3
    } else if all_alpha_ws(s) {
        4
    } else if s.contains('\n') {
        5
    } else if s.contains('\u{1b}') {
        6
    } else if !all_ascii(s) {
        7
    } else {
        8
    }
}

/// The name of a kind of data.
pub open spec fn kind_name(k: nat) -> Seq<char> {
    if k == 0 {
        "empty"@
    } else if k == 1 {
        "integer"@
    } else if k == 2 {
        "number"@
    } else if k == 3 {
        "char"@
    } else if k == 4 {
        "text"@
    } else if k == 5 {
        "multiline"@
    } else if k == 6 {
        "ansi"@
    } else if k == 7 {
        "unicode"@
    } else {
        "mixed"@
    }
}


/// `code` when colours are used, else nothing.
pub open spec fn paint(on: bool, code: Seq<char>) -> Seq<char> {
    if on {
        code
    } else {
        Seq::empty()
    }
}

/// The heading of an analysis.
pub open spec fn title_text(c: DebugConfig) -> Seq<char> {
    paint(c.use_colors, "\x1b[1;36m"@) + "=== TABLE DEBUG ANALYSIS ===\n"@ + paint(c.use_colors, "\x1b[0m"@)
}

/// A section heading in yellow.
pub open spec fn section(c: DebugConfig, heading: Seq<char>) -> Seq<char> {
    paint(c.use_colors, "\x1b[1;33m"@) + heading + paint(c.use_colors, "\x1b[0m"@)
}

/// The product of two numbers.
#[verifier::opaque]
pub open spec fn times(a: nat, b: nat) -> nat {
    a * b
}

/// The numbers of rows, columns and cells, and a warning for an empty table.
pub open spec fn dims_text(t: Seq<Seq<Seq<char>>>, c: DebugConfig) -> Seq<char> {
    let n = t.len();
    let m = column_count_of(t);
    section(c, "--- Table Dimensions ---\n"@) + "Rows: "@ + decimal(n) + "\n"@ + "Columns: "@ + decimal(m)
        + "\n"@ + "Total cells: "@ + decimal(times(n, m)) + "\n"@ + if n == 0 {
        paint(c.use_colors, "\x1b[1;31m"@) + "⚠️  Table is empty!\n"@ + paint(c.use_colors, "\x1b[0m"@)
    } else {
        Seq::empty()
    }
}

/// The display widths of the columns.
pub open spec fn unicode_widths(t: Seq<Seq<Seq<char>>>) -> Seq<nat> {
    Seq::new(column_count_of(t), |i: int| unicode_column_max(t, i, t.len() as int))
}

/// The sum of a sequence of numbers.
pub open spec fn total(s: Seq<nat>) -> nat
    decreases s.len(),
{
    if s.len() == 0 {
        0
    } else {
        total(s.drop_last()) + s.last()
    }
}

/// The line for column `i`: its width in bytes, and its display width when that differs.
pub open spec fn width_line(i: nat, bw: nat, uw: nat, c: DebugConfig) -> Seq<char> {
    "Column "@ + decimal(i) + ": "@ + decimal(bw) + " chars"@ + (if bw != uw {
        " (Unicode: "@ + decimal(uw) + " chars)"@ + paint(c.use_colors, "\x1b[1;31m ⚠️\x1b[0m"@)
    } else {
        Seq::empty()
    }) + "\n"@
}

/// The widths of the columns, their total and the estimated width of the drawn table.
pub open spec fn widths_text(t: Seq<Seq<Seq<char>>>, c: DebugConfig) -> Seq<char> {
    let b = byte_column_widths(t);
    let u = unicode_widths(t);
    if t.len() == 0 {
        Seq::empty()
    } else {
        section(c, "\n--- Column Width Analysis ---\n"@) + concat_all(
            Seq::new(b.len(), |i: int| width_line(i as nat, b[i], u[i], c)),
        ) + "Total content width: "@ + decimal(total(b)) + " characters\n"@
            + "Estimated rendered width: "@ + decimal(total(b) + b.len() * 3 + 1) + " characters\n"@
    }
}

/// The number of rows previewed.
pub open spec fn preview_rows(n: nat, c: DebugConfig) -> nat {
    let most: nat = if c.compact_output {
        3
    } else {
        5
    };
    if n < most {
        n
    } else {
        most
    }
}

/// A cell's first `max` bytes and `...` when it is longer, else the cell.
pub open spec fn preview(cell: Seq<char>, max: nat) -> Seq<char> {
    if byte_len(cell) > max {
        decode_utf8(encode_utf8(cell).subrange(0, max as int)) + "..."@
    } else {
        cell
    }
}

/// `s` with each line feed written as a backslash and `n`.
pub open spec fn show_newlines(s: Seq<char>) -> Seq<char>
    decreases s.len(),
{
    if s.len() == 0 {
        Seq::empty()
    } else {
        show_newlines(s.drop_last()) + if s.last() == '\n' {
            seq!['\\', 'n']
        } else {
            seq![s.last()]
        }
    }
}

/// The preview line of row `r`.
pub open spec fn preview_line(r: nat, row: Seq<Seq<char>>, max: nat) -> Seq<char> {
    "Row "@ + decimal(r) + ": ["@ + join_seq(
        Seq::new(row.len(), |k: int| seq!['"'] + show_newlines(preview(row[k], max)) + seq!['"']),
        ", "@,
    ) + "]\n"@
}

/// A preview of the first rows' cells.
pub open spec fn cells_text(t: Seq<Seq<Seq<char>>>, c: DebugConfig) -> Seq<char> {
    let p = preview_rows(t.len(), c);
    if t.len() == 0 || c.max_cell_preview == 0 {
        Seq::empty()
    } else {
        section(c, "\n--- Cell Contents Preview ---\n"@) + concat_all(
            Seq::new(p, |r: int| preview_line(r as nat, t[r], c.max_cell_preview as nat)),
        ) + if t.len() > p {
            "... ("@ + decimal((t.len() - p) as nat) + " more rows)\n"@
        } else {
            Seq::empty()
        }
    }
}

/// The rows among the first `k` whose length is not `m`, with their lengths.
pub open spec fn bad_rows(t: Seq<Seq<Seq<char>>>, m: nat, k: int) -> Seq<(nat, nat)>
    decreases k,
{
    if k <= 0 {
        Seq::empty()
    } else if t[k - 1].len() != m {
        bad_rows(t, m, k - 1).push(((k - 1) as nat, t[k - 1].len()))
    } else {
        bad_rows(t, m, k - 1)
    }
}

/// Whether every row has as many cells as the first, or which do not (up to five listed).
pub open spec fn consistency_text(t: Seq<Seq<Seq<char>>>, c: DebugConfig) -> Seq<char> {
    let m = column_count_of(t);
    let bad = bad_rows(t, m, t.len() as int);
    let shown: nat = if bad.len() < 5 {
        bad.len()
    } else {
        5
    };
    if bad.len() == 0 {
        paint(c.use_colors, "\x1b[1;32m"@) + "✅ All rows have consistent column count\n"@ + paint(
            c.use_colors,
            "\x1b[0m"@,
        )
    } else {
        paint(c.use_colors, "\x1b[1;31m"@) + "❌ Found "@ + decimal(bad.len())
            + " rows with inconsistent column count:\n"@ + paint(c.use_colors, "\x1b[0m"@) + concat_all(
            Seq::new(
                shown,
                |j: int|
                    "  Row "@ + decimal(bad[j].0) + ": "@ + decimal(bad[j].1) + " columns (expected "@
                        + decimal(m) + ")\n"@,
            ),
        ) + if bad.len() > 5 {
            "  ... and "@ + decimal((bad.len() - 5) as nat) + " more\n"@
        } else {
            Seq::empty()
        }
    }
}

/// The kinds of data in column `col` among the first `k` rows, in the order first met.
pub open spec fn kinds_seen(t: Seq<Seq<Seq<char>>>, col: nat, k: int) -> Seq<nat>
    decreases k,
{
    if k <= 0 {
        Seq::empty()
    } else {
        let s = kinds_seen(t, col, k - 1);
        if col < t[k - 1].len() && !s.contains(kind_of(t[k - 1][col as int])) {
            s.push(kind_of(t[k - 1][col as int]))
        } else {
            s
        }
    }
}

/// How many of the first `k` rows have data of kind `kind` in column `col`.
pub open spec fn kind_count(t: Seq<Seq<Seq<char>>>, col: nat, k: int, kind: nat) -> nat
    decreases k,
{
    if k <= 0 {
        0
    } else {
        kind_count(t, col, k - 1, kind) + if col < t[k - 1].len() && kind_of(t[k - 1][col as int]) == kind {
            1nat
        } else {
            0nat
        }
    }
}

/// The kinds of data of a column with their counts.
pub open spec fn column_kinds_line(t: Seq<Seq<Seq<char>>>, col: nat) -> Seq<char> {
    let seen = kinds_seen(t, col, t.len() as int);
    "  Column "@ + decimal(col) + ": "@ + join_seq(
        Seq::new(
            seen.len(),
            |j: int| kind_name(seen[j]) + " ("@ + decimal(kind_count(t, col, t.len() as int, seen[j])) + ")"@,
        ),
        ", "@,
    ) + "\n"@
}

/// The kinds of data in each column.
pub open spec fn types_text(t: Seq<Seq<Seq<char>>>) -> Seq<char> {
    "\nData type analysis per column:\n"@ + concat_all(
        Seq::new(column_count_of(t), |col: int| column_kinds_line(t, col as nat)),
    )
}

/// All cells' text, one after another.
pub open spec fn all_text(t: Seq<Seq<Seq<char>>>) -> Seq<char> {
    concat_all(Seq::new(t.len(), |r: int| concat_all(t[r])))
}

/// A character counted as an emoji here.
pub open spec fn is_face_emoji(c: char) -> bool {
    (0x1F600 <= c as u32 <= 0x1F64F) || (0x1F300 <= c as u32 <= 0x1F5FF) || (0x1F680 <= c as u32
        <= 0x1F6FF)
}

/// Some character of `s` is counted as an emoji.
pub open spec fn has_emoji(s: Seq<char>) -> bool {
    exists|i: int| 0 <= i < s.len() && is_face_emoji(#[trigger] s[i])
}

/// The names of the special characters present.
pub open spec fn special_names(s: Seq<char>) -> Seq<Seq<char>> {
    (if s.contains('\n') { seq!["newlines"@] } else { Seq::empty() }) + (if s.contains('\t') {
        seq!["tabs"@]
    } else {
        Seq::empty()
    }) + (if s.contains('\u{1b}') { seq!["ANSI sequences"@] } else { Seq::empty() }) + (if !all_ascii(s) {
        seq!["Unicode"@]
    } else {
        Seq::empty()
    }) + (if has_emoji(s) { seq!["emojis"@] } else { Seq::empty() })
}

/// The special characters found, with advice for each.
pub open spec fn special_text(t: Seq<Seq<Seq<char>>>) -> Seq<char> {
    let s = all_text(t);
    let names = special_names(s);
    if names.len() == 0 {
        Seq::empty()
    } else {
        "\nSpecial characters detected: "@ + join_seq(names, ", "@) + "\n"@ + (if s.contains('\u{1b}') {
            "  💡 Consider using render_table_ansi_aware() for ANSI sequences\n"@
        } else {
            Seq::empty()
        }) + (if !all_ascii(s) || has_emoji(s) {
            "  💡 Consider using render_table_unicode_aware() or emoji-aware functions\n"@
        } else {
            Seq::empty()
        }) + if s.contains('\n') {
            "  💡 Consider using render_table_with_newlines() for multi-line cells\n"@
        } else {
            Seq::empty()
        }
    }
}

/// The structure of a non-empty table: row lengths, kinds of data, special characters.
pub open spec fn structure_text(t: Seq<Seq<Seq<char>>>, c: DebugConfig) -> Seq<char> {
    if t.len() == 0 {
        Seq::empty()
    } else {
        section(c, "\n--- Structure Analysis ---\n"@) + consistency_text(t, c) + types_text(t)
            + special_text(t)
    }
}

/// What `analyze_table` gives: the heading, then each section the settings show, then the
/// structure.
pub open spec fn analysis_text(t: Seq<Seq<Seq<char>>>, c: DebugConfig) -> Seq<char> {
    title_text(c) + (if c.show_dimensions {
        dims_text(t, c)
    } else {
        Seq::empty()
    }) + (if c.show_column_widths {
        widths_text(t, c)
    } else {
        Seq::empty()
    }) + (if c.show_cell_contents {
        cells_text(t, c)
    } else {
        Seq::empty()
    }) + structure_text(t, c)
}

/// Whether a table can be analysed with the settings: the numbers written fit in `usize`,
/// and previewed cells are cut between characters.
pub open spec fn analysis_ok(t: Seq<Seq<Seq<char>>>, c: DebugConfig) -> bool {
    &&& c.show_dimensions ==> times(t.len(), column_count_of(t)) <= usize::MAX
    &&& c.show_column_widths ==> total(byte_column_widths(t)) + byte_column_widths(t).len() * 3 + 1
        <= usize::MAX
    &&& c.show_cell_contents ==> forall|r: int, k: int|
        0 <= r < preview_rows(t.len(), c) && 0 <= k < t[r].len() && byte_len(#[trigger] t[r][k])
            > c.max_cell_preview ==> is_char_boundary(encode_utf8(t[r][k]), c.max_cell_preview as int)
}


/// Adds `code` when colours are used.
fn paint_into(out: &mut String, on: bool, code: &str)
    ensures
        final(out)@ == old(out)@ + paint(on, code@),
{
    if on {
        push_str(out, code);
    } else {
        assert(old(out)@ + Seq::<char>::empty() =~= old(out)@);
    }
}

/// The product of two numbers whose product fits.
fn product(a: usize, b: usize) -> (res: usize)
    requires
        times(a as nat, b as nat) <= usize::MAX,
    ensures
        res == times(a as nat, b as nat),
{
    proof {
        reveal(times);
    }
    a * b
}

/// Adds `n` in decimal.
fn push_num(out: &mut String, n: usize)
    ensures
        final(out)@ == old(out)@ + decimal(n as nat),
{
    let d = usize_to_string(n);
    push_str(out, d.as_str());
}

/// A section heading (see `section`).
fn push_section(out: &mut String, c: &DebugConfig, heading: &str)
    ensures
        final(out)@ == old(out)@ + section(*c, heading@),
{
    let ghost start = out@;
    paint_into(out, c.use_colors, "\x1b[1;33m");
    push_str(out, heading);
    paint_into(out, c.use_colors, "\x1b[0m");
    assert(out@ =~= start + section(*c, heading@));
}

/// The sum of a prefix grows by the next element and stays within the whole sum.
proof fn lemma_total_prefix(s: Seq<nat>, i: int)
    requires
        0 <= i < s.len(),
    ensures
        total(s.take(i + 1)) == total(s.take(i)) + s[i],
        total(s.take(i + 1)) <= total(s),
    decreases s.len() - i,
{
    assert(s.take(i + 1).drop_last() =~= s.take(i));
    if i + 1 < s.len() {
        lemma_total_prefix(s, i + 1);
    } else {
        assert(s.take(i + 1) =~= s);
    }
}


/// `s` with each line feed written as a backslash and `n` (see `show_newlines`).
fn show_newlines_text(s: &str) -> (res: String)
    ensures
        res@ == show_newlines(s@),
{
    let v = chars_of(s);
    let mut out = String::new();
    let mut i: usize = 0;
    while i < v.len()
        invariant
            i <= v@.len(),
            v@ == s@,
            out@ == show_newlines(v@.take(i as int)),
        decreases v@.len() - i,
    {
        assert(v@.take(i + 1).drop_last() =~= v@.take(i as int));
        if v[i] == '\n' {
            push_char(&mut out, '\\');
            push_char(&mut out, 'n');
        } else {
            push_char(&mut out, v[i]);
        }
        i = i + 1;
        assert(out@ =~= show_newlines(v@.take(i as int)));
    }
    assert(v@.take(i as int) =~= v@);
    out
}


/// The rows whose length is not `m`, and their lengths (see `bad_rows`).
fn inconsistent_rows(data: &TableData, m: usize) -> (res: (Vec<usize>, Vec<usize>))
    ensures
        res.0@.len() == res.1@.len() == bad_rows(table_view(data.rows@), m as nat, data.rows@.len() as int).len(),
        forall|k: int|
            0 <= k < res.0@.len() ==> res.0@[k] as nat == (#[trigger] bad_rows(
                table_view(data.rows@),
                m as nat,
                data.rows@.len() as int,
            )[k]).0 && res.1@[k] as nat == bad_rows(
                table_view(data.rows@),
                m as nat,
                data.rows@.len() as int,
            )[k].1,
{
    let ghost t = table_view(data.rows@);
    let mut at: Vec<usize> = Vec::new();
    let mut lens: Vec<usize> = Vec::new();
    let mut i: usize = 0;
    while i < data.rows.len()
        invariant
            i <= data.rows@.len(),
            t == table_view(data.rows@),
            at@.len() == lens@.len() == bad_rows(t, m as nat, i as int).len(),
            forall|k: int|
                0 <= k < at@.len() ==> at@[k] as nat == (#[trigger] bad_rows(t, m as nat, i as int)[k]).0
                    && lens@[k] as nat == bad_rows(t, m as nat, i as int)[k].1,
        decreases data.rows@.len() - i,
    {
        assert(t[i as int] == views(data.rows@[i as int]@));
        if data.rows[i].len() != m {
            at.push(i);
            lens.push(data.rows[i].len());
        }
        i = i + 1;
    }
    (at, lens)
}


/// Whether some character of `v` is counted as an emoji.
fn any_emoji(v: &Vec<char>) -> (res: bool)
    ensures
        res == has_emoji(v@),
{
    let mut i: usize = 0;
    while i < v.len()
        invariant
            i <= v@.len(),
            forall|k: int| 0 <= k < i ==> !is_face_emoji(#[trigger] v@[k]),
        decreases v@.len() - i,
    {
        let c = v[i] as u32;
        if (0x1F600 <= c && c <= 0x1F64F) || (0x1F300 <= c && c <= 0x1F5FF) || (0x1F680 <= c && c <= 0x1F6FF) {
            assert(is_face_emoji(v@[i as int]));
            return true;
        }
        i = i + 1;
    }
    false
}

/// All cells' text, one after another (see `all_text`).
fn all_cells_text(data: &TableData) -> (res: String)
    ensures
        res@ == all_text(table_view(data.rows@)),
{
    let ghost t = table_view(data.rows@);
    let ghost parts = Seq::new(t.len(), |r: int| concat_all(t[r]));
    let mut out = String::new();
    let mut r: usize = 0;
    while r < data.rows.len()
        invariant
            r <= data.rows@.len(),
            t == table_view(data.rows@),
            parts == Seq::new(t.len(), |r: int| concat_all(t[r])),
            out@ == concat_all(parts.take(r as int)),
        decreases data.rows@.len() - r,
    {
        assert(parts.take(r + 1).drop_last() =~= parts.take(r as int));
        assert(t[r as int] == views(data.rows@[r as int]@));
        let row_text = concat_strings(&data.rows[r]);
        push_str(&mut out, row_text.as_str());
        r = r + 1;
    }
    assert(parts.take(r as int) =~= parts);
    out
}

/// A kind met among the first rows is one of the nine kinds.
proof fn lemma_kinds_small(t: Seq<Seq<Seq<char>>>, col: nat, k: int)
    ensures
        forall|j: int| 0 <= j < kinds_seen(t, col, k).len() ==> #[trigger] kinds_seen(t, col, k)[j] < 9,
    decreases k,
{
    if k > 0 {
        lemma_kinds_small(t, col, k - 1);
        let s = kinds_seen(t, col, k - 1);
        if col < t[k - 1].len() && !s.contains(kind_of(t[k - 1][col as int])) {
            let x = kind_of(t[k - 1][col as int]);
            assert(x < 9);
            assert forall|j: int| 0 <= j < s.push(x).len() implies #[trigger] s.push(x)[j] < 9 by {
                if j < s.len() {
                    assert(s.push(x)[j] == s[j]);
                }
            }
        }
    }
}

/// A count among the first rows is at most their number.
proof fn lemma_count_small(t: Seq<Seq<Seq<char>>>, col: nat, k: int, kind: nat)
    ensures
        kind_count(t, col, k, kind) <= (if k < 0 { 0 } else { k }),
    decreases k,
{
    if k > 0 {
        lemma_count_small(t, col, k - 1, kind);
    }
}

/// The kinds of data of column `col` with their counts (see `column_kinds_line`).
fn kinds_line(data: &TableData, col: usize) -> (res: String)
    ensures
        res@ == column_kinds_line(table_view(data.rows@), col as nat),
{
    let ghost t = table_view(data.rows@);
    let mut seen: Vec<usize> = Vec::new();
    let mut counts: Vec<usize> = vec![0, 0, 0, 0, 0, 0, 0, 0, 0];
    let mut r: usize = 0;
    while r < data.rows.len()
        invariant
            r <= data.rows@.len(),
            t == table_view(data.rows@),
            seen@.map_values(|x: usize| x as nat) == kinds_seen(t, col as nat, r as int),
            counts@.len() == 9,
            forall|k: int| 0 <= k < 9 ==> #[trigger] counts@[k] as nat == kind_count(t, col as nat, r as int, k as nat),
        decreases data.rows@.len() - r,
    {
        proof {
            lemma_kinds_small(t, col as nat, r as int);
        }
        assert(t[r as int] == views(data.rows@[r as int]@));
        let ghost s0 = kinds_seen(t, col as nat, r as int);
        if col < data.rows[r].len() {
            assert(t[r as int][col as int] == data.rows@[r as int]@[col as int]@);
            let k = kind_of_text(data.rows[r][col].as_str());
            let mut found = false;
            let mut j: usize = 0;
            while j < seen.len()
                invariant
                    j <= seen@.len(),
                    seen@.map_values(|x: usize| x as nat) == s0,
                    found == exists|q: int| 0 <= q < j && s0[q] == k as nat,
                decreases seen@.len() - j,
            {
                assert(s0[j as int] == seen@[j as int] as nat);
                if seen[j] == k {
                    found = true;
                }
                j = j + 1;
            }
            assert(found == s0.contains(k as nat));
            if !found {
                seen.push(k);
                assert(seen@.map_values(|x: usize| x as nat) =~= s0.push(k as nat));
            }
            proof {
                lemma_count_small(t, col as nat, r as int, k as nat);
            }
            let c = counts[k];
            counts.set(k, c + 1);
        }
        r = r + 1;
    }
    proof {
        lemma_kinds_small(t, col as nat, t.len() as int);
    }
    let ghost sn = kinds_seen(t, col as nat, t.len() as int);
    let ghost entries = Seq::new(
        sn.len(),
        |j: int| kind_name(sn[j]) + " ("@ + decimal(kind_count(t, col as nat, t.len() as int, sn[j])) + ")"@,
    );
    let mut parts: Vec<String> = Vec::new();
    let mut j: usize = 0;
    while j < seen.len()
        invariant
            j <= seen@.len(),
            seen@.map_values(|x: usize| x as nat) == sn,
            forall|q: int| 0 <= q < sn.len() ==> #[trigger] sn[q] < 9,
            counts@.len() == 9,
            forall|k: int| 0 <= k < 9 ==> #[trigger] counts@[k] as nat == kind_count(t, col as nat, t.len() as int, k as nat),
            entries == Seq::new(
                sn.len(),
                |j: int| kind_name(sn[j]) + " ("@ + decimal(kind_count(t, col as nat, t.len() as int, sn[j])) + ")"@,
            ),
            views(parts@) == entries.take(j as int),
        decreases seen@.len() - j,
    {
        let k = seen[j];
        assert(sn[j as int] == k as nat);
        let mut e = owned(kind_name_text(k));
        push_str(&mut e, " (");
        push_num(&mut e, counts[k]);
        push_str(&mut e, ")");
        assert(e@ =~= entries[j as int]);
        let ghost prev = views(parts@);
        parts.push(e);
        assert(views(parts@) =~= prev.push(e@));
        j = j + 1;
        assert(views(parts@) =~= entries.take(j as int));
    }
    assert(entries.take(j as int) =~= entries);
    let joined = crate::text::join_strings(&parts, ", ");
    let mut line = String::new();
    push_str(&mut line, "  Column ");
    push_num(&mut line, col);
    push_str(&mut line, ": ");
    push_str(&mut line, joined.as_str());
    push_str(&mut line, "\n");
    assert(line@ =~= column_kinds_line(t, col as nat));
    line
}

/// Whether `v` is an ASCII digit.
fn digit(c: char) -> (res: bool)
    ensures
        res == is_ascii_digit(c),
{
    '0' <= c && c <= '9'
}

/// Whether `v` (a word in lower case) equals `b` ignoring ASCII case.
fn same_ignore_case(b: &Vec<char>, word: &Vec<char>) -> (res: bool)
    ensures
        res == eq_ignore_case(b@, word@),
{
    if b.len() != word.len() {
        return false;
    }
    let mut i: usize = 0;
    while i < b.len()
        invariant
            i <= b@.len() == word@.len(),
            forall|k: int| 0 <= k < i ==> same_letter(#[trigger] b@[k], word@[k]),
        decreases b@.len() - i,
    {
        let c = b[i];
        let w = word[i];
        let ok = c == w || ('A' <= c && c <= 'Z' && (c as u32) + 32 == (w as u32));
        if !ok {
            return false;
        }
        i = i + 1;
    }
    true
}

/// The characters `a..b` of `v`.
fn sub_chars(v: &Vec<char>, a: usize, b: usize) -> (res: Vec<char>)
    requires
        a <= b <= v@.len(),
    ensures
        res@ == v@.subrange(a as int, b as int),
{
    let mut r: Vec<char> = Vec::new();
    let mut i: usize = a;
    while i < b
        invariant
            a <= i <= b <= v@.len(),
            r@ == v@.subrange(a as int, i as int),
        decreases b - i,
    {
        r.push(v[i]);
        i = i + 1;
        assert(r@ =~= v@.subrange(a as int, i as int));
    }
    r
}

/// Whether every character of `v` is a digit.
fn all_digits_vec(v: &Vec<char>) -> (res: bool)
    ensures
        res == all_digits_text(v@),
{
    let mut i: usize = 0;
    while i < v.len()
        invariant
            i <= v@.len(),
            forall|k: int| 0 <= k < i ==> is_ascii_digit(#[trigger] v@[k]),
        decreases v@.len() - i,
    {
        if !digit(v[i]) {
            return false;
        }
        i = i + 1;
    }
    true
}

/// Whether `m` is digits with at most one point and at least one digit.
fn mantissa(m: &Vec<char>) -> (res: bool)
    ensures
        res == mantissa_ok(m@),
{
    let mut nd: usize = 0;
    let mut ndig: usize = 0;
    let mut i: usize = 0;
    while i < m.len()
        invariant
            i <= m@.len(),
            forall|k: int| 0 <= k < i ==> is_ascii_digit(#[trigger] m@[k]) || m@[k] == '.',
            nd == dots(m@.take(i as int)),
            ndig == digit_count(m@.take(i as int)),
            nd <= i,
            ndig <= i,
        decreases m@.len() - i,
    {
        assert(m@.take(i + 1).drop_last() =~= m@.take(i as int));
        if digit(m[i]) {
            ndig = ndig + 1;
        } else if m[i] == '.' {
            nd = nd + 1;
        } else {
            return false;
        }
        i = i + 1;
    }
    assert(m@.take(i as int) =~= m@);
    nd <= 1 && ndig >= 1
}

/// Whether `x` is an optional sign and at least one digit.
fn exponent(x: &Vec<char>) -> (res: bool)
    ensures
        res == exponent_ok(x@),
{
    let start: usize = if x.len() > 0 && (x[0] == '+' || x[0] == '-') {
        1
    } else {
        0
    };
    let y = sub_chars(x, start, x.len());
    if start == 1 {
        assert(y@ =~= x@.drop_first());
    } else {
        assert(y@ =~= x@);
    }
    y.len() >= 1 && all_digits_vec(&y)
}

/// Whether `str::parse::<f64>` accepts the text (see `is_float_text`).
pub fn float_text(s: &str) -> (res: bool)
    ensures
        res == is_float_text(s@),
{
    let v = chars_of(s);
    let start: usize = if v.len() > 0 && (v[0] == '+' || v[0] == '-') {
        1
    } else {
        0
    };
    let b = sub_chars(&v, start, v.len());
    let ghost bs = if s@.len() > 0 && is_sign(s@[0]) {
        s@.drop_first()
    } else {
        s@
    };
    if start == 1 {
        assert(b@ =~= s@.drop_first());
    } else {
        assert(b@ =~= s@);
    }
    assert(b@ == bs);
    let inf = chars_of("inf");
    let infinity = chars_of("infinity");
    let nan = chars_of("nan");
    proof {
        reveal_strlit("inf");
        reveal_strlit("infinity");
        reveal_strlit("nan");
    }
    if same_ignore_case(&b, &inf) || same_ignore_case(&b, &infinity) || same_ignore_case(&b, &nan) {
        return true;
    }
    let mut e: usize = 0;
    while e < b.len() && b[e] != 'e' && b[e] != 'E'
        invariant
            e <= b@.len(),
            exp_at(b@, e as int) == exp_at(b@, 0),
        decreases b@.len() - e,
    {
        e = e + 1;
    }
    assert(exp_at(b@, e as int) == e);
    let m = sub_chars(&b, 0, e);
    assert(m@ =~= b@.take(e as int));
    if !mantissa(&m) {
        return false;
    }
    if e == b.len() {
        return true;
    }
    let x = sub_chars(&b, e + 1, b.len());
    assert(x@ =~= b@.skip(e + 1));
    exponent(&x)
}

/// Whether every character of `v` is an ASCII letter or ASCII whitespace.
fn all_alpha_ws_vec(v: &Vec<char>) -> (res: bool)
    ensures
        res == all_alpha_ws(v@),
{
    let mut i: usize = 0;
    while i < v.len()
        invariant
            i <= v@.len(),
            forall|k: int| 0 <= k < i ==> is_ascii_alpha(#[trigger] v@[k]) || is_ascii_ws(v@[k]),
        decreases v@.len() - i,
    {
        let c = v[i];
        let ok = ('a' <= c && c <= 'z') || ('A' <= c && c <= 'Z') || c == ' ' || c == '\t' || c == '\n'
            || c == '\u{0C}' || c == '\r';
        if !ok {
            return false;
        }
        i = i + 1;
    }
    true
}

/// Whether `v` holds `c`.
fn has_char(v: &Vec<char>, c: char) -> (res: bool)
    ensures
        res == v@.contains(c),
{
    let mut i: usize = 0;
    while i < v.len()
        invariant
            i <= v@.len(),
            forall|k: int| 0 <= k < i ==> v@[k] != c,
        decreases v@.len() - i,
    {
        if v[i] == c {
            assert(v@[i as int] == c);
            return true;
        }
        i = i + 1;
    }
    false
}

/// Whether every character of `v` is ASCII.
fn all_ascii_vec(v: &Vec<char>) -> (res: bool)
    ensures
        res == all_ascii(v@),
{
    let mut i: usize = 0;
    while i < v.len()
        invariant
            i <= v@.len(),
            forall|k: int| 0 <= k < i ==> (#[trigger] v@[k]) as u32 <= 0x7f,
        decreases v@.len() - i,
    {
        if v[i] as u32 > 0x7f {
            return false;
        }
        i = i + 1;
    }
    true
}

/// The kind of a cell's data (see `kind_of`).
pub fn kind_of_text(cell: &str) -> (res: usize)
    ensures
        res == kind_of(cell@),
        res < 9,
{
    let v = chars_of(cell);
    if v.len() == 0 {
        0
    } else if all_digits_vec(&v) {
        1
    } else if float_text(cell) {
        2
    } else if cell.as_bytes().len() == 1 {
        3
    } else if all_alpha_ws_vec(&v) {
        4
    } else if has_char(&v, '\n') {
        5
    } else if has_char(&v, '\u{1b}') {
        6
    } else if !all_ascii_vec(&v) {
        7
    } else {
        8
    }
}

/// The name of a kind of data (see `kind_name`).
pub fn kind_name_text(k: usize) -> (res: &'static str)
    ensures
        res@ == kind_name(k as nat),
{
    proof {
        reveal_strlit("empty");
        reveal_strlit("integer");
        reveal_strlit("number");
        reveal_strlit("char");
        reveal_strlit("text");
        reveal_strlit("multiline");
        reveal_strlit("ansi");
        reveal_strlit("unicode");
        reveal_strlit("mixed");
    }
    if k == 0 {
        "empty"
    } else if k == 1 {
        "integer"
    } else if k == 2 {
        "number"
    } else if k == 3 {
        "char"
    } else if k == 4 {
        "text"
    } else if k == 5 {
        "multiline"
    } else if k == 6 {
        "ansi"
    } else if k == 7 {
        "unicode"
    } else {
        "mixed"
    }
}


/// Analyses tables and gives the findings as text.
pub struct TableDebugger {
    config: DebugConfig,
}

impl TableDebugger {
    /// The settings.
    pub closed spec fn settings(&self) -> DebugConfig {
        self.config
    }

    /// An analyser with the given settings.
    pub fn new(config: DebugConfig) -> (res: Self)
        ensures
            res.settings() == config,
    {
        TableDebugger { config }
    }

    fn write_title(&self, out: &mut String)
        ensures
            final(out)@ == old(out)@ + title_text(self.config),
    {
        let ghost start = out@;
        paint_into(out, self.config.use_colors, "\x1b[1;36m");
        push_str(out, "=== TABLE DEBUG ANALYSIS ===\n");
        paint_into(out, self.config.use_colors, "\x1b[0m");
        assert(out@ =~= start + title_text(self.config));
    }

    #[verifier::spinoff_prover]
    #[verifier::rlimit(40)]
    fn write_dims(&self, out: &mut String, data: &TableData)
        requires
            times(data.rows@.len(), column_count_of(table_view(data.rows@))) <= usize::MAX,
        ensures
            final(out)@ == old(out)@ + dims_text(table_view(data.rows@), self.config),
    {
        let ghost start = out@;
        let ghost t = table_view(data.rows@);
        let n = data.row_count();
        let m = data.column_count();
        let nm = product(n, m);
        push_section(out, &self.config, "--- Table Dimensions ---\n");
        let ghost a = out@;
        push_str(out, "Rows: ");
        push_num(out, n);
        push_str(out, "\n");
        push_str(out, "Columns: ");
        push_num(out, m);
        push_str(out, "\n");
        let ghost b = out@;
        assert(b =~= a + "Rows: "@ + decimal(n as nat) + "\n"@ + "Columns: "@ + decimal(m as nat) + "\n"@);
        push_str(out, "Total cells: ");
        push_num(out, nm);
        push_str(out, "\n");
        let ghost mid = out@;
        assert(mid =~= b + "Total cells: "@ + decimal(nm as nat) + "\n"@);
        let ghost warn = if n == 0 {
            paint(self.config.use_colors, "\x1b[1;31m"@) + "⚠️  Table is empty!\n"@ + paint(self.config.use_colors, "\x1b[0m"@)
        } else {
            Seq::<char>::empty()
        };
        if data.is_empty() {
            paint_into(out, self.config.use_colors, "\x1b[1;31m");
            push_str(out, "⚠️  Table is empty!\n");
            paint_into(out, self.config.use_colors, "\x1b[0m");
        }
        assert(out@ =~= mid + warn);
        assert(dims_text(t, self.config) == section(self.config, "--- Table Dimensions ---\n"@) + "Rows: "@ + decimal(n as nat) + "\n"@ + "Columns: "@ + decimal(m as nat)
            + "\n"@ + "Total cells: "@ + decimal(nm as nat) + "\n"@ + warn);
        assert(out@ =~= start + dims_text(t, self.config));
    }


    #[verifier::spinoff_prover]
    #[verifier::rlimit(40)]
    fn write_cells(&self, out: &mut String, data: &TableData)
        requires
            forall|r: int, k: int|
                0 <= r < preview_rows(data.rows@.len(), self.config) && 0 <= k < table_view(data.rows@)[r].len()
                    && byte_len(#[trigger] table_view(data.rows@)[r][k]) > self.config.max_cell_preview
                    ==> is_char_boundary(
                    encode_utf8(table_view(data.rows@)[r][k]),
                    self.config.max_cell_preview as int,
                ),
        ensures
            final(out)@ == old(out)@ + cells_text(table_view(data.rows@), self.config),
    {
        let ghost t = table_view(data.rows@);
        if data.is_empty() || self.config.max_cell_preview == 0 {
            assert(old(out)@ + Seq::<char>::empty() =~= old(out)@);
            return;
        }
        let ghost start = out@;
        let max = self.config.max_cell_preview;
        push_section(out, &self.config, "\n--- Cell Contents Preview ---\n");
        let most: usize = if self.config.compact_output {
            3
        } else {
            5
        };
        let p: usize = if data.rows.len() < most {
            data.rows.len()
        } else {
            most
        };
        assert(p == preview_rows(t.len(), self.config));
        let ghost lines = Seq::new(p as nat, |r: int| preview_line(r as nat, t[r], max as nat));
        let ghost head = out@;
        let mut r: usize = 0;
        while r < p
            invariant
                r <= p <= data.rows@.len(),
                p == preview_rows(t.len(), self.config),
                max == self.config.max_cell_preview,
                t == table_view(data.rows@),
                lines == Seq::new(p as nat, |r: int| preview_line(r as nat, t[r], max as nat)),
                out@ == head + concat_all(lines.take(r as int)),
                forall|a: int, k: int|
                    0 <= a < p && 0 <= k < t[a].len() && byte_len(#[trigger] t[a][k]) > max ==> is_char_boundary(
                        encode_utf8(t[a][k]),
                        max as int,
                    ),
            decreases p - r,
        {
            proof {
                assert(lines.take(r + 1).drop_last() =~= lines.take(r as int));
            }
            let row = &data.rows[r];
            assert(t[r as int] == views(row@));
            let ghost before = out@;
            let ghost quoted = Seq::new(
                row@.len(),
                |k: int| seq!['"'] + show_newlines(preview(t[r as int][k], max as nat)) + seq!['"'],
            );
            let mut parts: Vec<String> = Vec::new();
            let mut k: usize = 0;
            while k < row.len()
                invariant
                    k <= row@.len(),
                    t[r as int] == views(row@),
                    quoted == Seq::new(
                        row@.len(),
                        |k: int| seq!['"'] + show_newlines(preview(t[r as int][k], max as nat)) + seq!['"'],
                    ),
                    views(parts@) == quoted.take(k as int),
                    forall|j: int|
                        0 <= j < t[r as int].len() && byte_len(#[trigger] t[r as int][j]) > max ==> is_char_boundary(
                            encode_utf8(t[r as int][j]),
                            max as int,
                        ),
                decreases row@.len() - k,
            {
                assert(t[r as int][k as int] == row@[k as int]@);
                let cell = row[k].as_str();
                let pv = if cell.as_bytes().len() > max {
                    let head_part = crate::single_line::cut_bytes(cell, max);
                    crate::text::concat2(head_part.as_str(), "...")
                } else {
                    owned(cell)
                };
                assert(pv@ == preview(t[r as int][k as int], max as nat));
                let shown = show_newlines_text(pv.as_str());
                let mut q = String::new();
                push_char(&mut q, '"');
                push_str(&mut q, shown.as_str());
                push_char(&mut q, '"');
                assert(q@ =~= quoted[k as int]);
                let ghost prev = views(parts@);
                parts.push(q);
                assert(views(parts@) =~= prev.push(q@));
                k = k + 1;
                assert(views(parts@) =~= quoted.take(k as int));
            }
            assert(quoted.take(k as int) =~= quoted);
            let joined = crate::text::join_strings(&parts, ", ");
            push_str(out, "Row ");
            push_num(out, r);
            push_str(out, ": [");
            push_str(out, joined.as_str());
            push_str(out, "]\n");
            assert(out@ =~= before + lines[r as int]);
            r = r + 1;
        }
        assert(lines.take(r as int) =~= lines);
        let ghost body = out@;
        if data.rows.len() > p {
            push_str(out, "... (");
            push_num(out, data.rows.len() - p);
            push_str(out, " more rows)\n");
        }
        assert(out@ =~= start + cells_text(t, self.config));
    }


    #[verifier::rlimit(30)]
    /// The findings on a table (see `analysis_text`).
    #[verifier::spinoff_prover]
    #[verifier::rlimit(40)]
    pub fn analyze_table(&self, data: &TableData) -> (res: String)
        requires
            analysis_ok(table_view(data.rows@), self.settings()),
        ensures
            res@ == analysis_text(table_view(data.rows@), self.settings()),
    {
        let ghost t = table_view(data.rows@);
        let mut out = String::new();
        self.write_title(&mut out);
        let ghost a = out@;
        if self.config.show_dimensions {
            self.write_dims(&mut out, data);
        }
        let ghost b = out@;
        assert(b =~= a + (if self.config.show_dimensions { dims_text(t, self.config) } else { Seq::empty() }));
        if self.config.show_column_widths {
            self.write_widths(&mut out, data);
        }
        let ghost c = out@;
        assert(c =~= b + (if self.config.show_column_widths { widths_text(t, self.config) } else { Seq::empty() }));
        if self.config.show_cell_contents {
            self.write_cells(&mut out, data);
        }
        let ghost d = out@;
        assert(d =~= c + (if self.config.show_cell_contents { cells_text(t, self.config) } else { Seq::empty() }));
        self.write_structure(&mut out, data);
        assert(out@ =~= analysis_text(t, self.config));
        out
    }

    fn write_structure(&self, out: &mut String, data: &TableData)
        ensures
            final(out)@ == old(out)@ + structure_text(table_view(data.rows@), self.config),
    {
        let ghost t = table_view(data.rows@);
        if data.is_empty() {
            assert(old(out)@ + Seq::<char>::empty() =~= old(out)@);
            return;
        }
        let ghost start = out@;
        push_section(out, &self.config, "\n--- Structure Analysis ---\n");
        self.write_consistency(out, data);
        self.write_types(out, data);
        self.write_special(out, data);
        assert(out@ =~= start + structure_text(t, self.config));
    }

    /// The kind of a cell's data, by name (see `kind_of`).
    pub fn classify_data_type(&self, cell: &str) -> (res: &'static str)
        ensures
            res@ == kind_name(kind_of(cell@)),
    {
        kind_name_text(kind_of_text(cell))
    }

    /// The findings on a table, and with `show_alignment_info` a line per column setting.
    #[verifier::spinoff_prover]
    #[verifier::rlimit(40)]
    pub fn analyze_with_config(&self, data: &TableData, column_configs: &[ColumnConfig]) -> (res: String)
        requires
            analysis_ok(table_view(data.rows@), self.settings()),
        ensures
            !self.settings().show_alignment_info ==> res@ == analysis_text(table_view(data.rows@), self.settings()),
            self.settings().show_alignment_info ==> res@ == analysis_text(table_view(data.rows@), self.settings())
                + "\n--- Column Configuration Analysis ---\n"@ + config_lines(
                column_configs@.map_values(|c: ColumnConfig| column_debug(c)),
            ),
    {
        let mut out = self.analyze_table(data);
        if self.config.show_alignment_info {
            let ghost base = out@;
            push_str(&mut out, "\n--- Column Configuration Analysis ---\n");
            let ghost head = out@;
            let ghost mut d: Seq<Seq<char>> = Seq::empty();
            let mut i: usize = 0;
            while i < column_configs.len()
                invariant
                    i <= column_configs@.len(),
                    d == column_configs@.take(i as int).map_values(|c: ColumnConfig| column_debug(c)),
                    out@ == head + config_lines(d),
                decreases column_configs@.len() - i,
            {
                let text = column_debug_text(&column_configs[i]);
                let ghost before = out@;
                push_str(&mut out, "Column ");
                push_num(&mut out, i);
                push_str(&mut out, ": ");
                push_str(&mut out, text.as_str());
                push_str(&mut out, "\n");
                proof {
                    let d2 = d.push(text@);
                    let f = |k: int| "Column "@ + decimal(k as nat) + ": "@ + d2[k] + "\n"@;
                    assert(Seq::new(d2.len(), f).drop_last() =~= Seq::new(
                        d.len(),
                        |k: int| "Column "@ + decimal(k as nat) + ": "@ + d[k] + "\n"@,
                    ));
                    d = d2;
                    assert(d =~= column_configs@.take(i + 1).map_values(|c: ColumnConfig| column_debug(c)));
                }
                assert(out@ =~= head + config_lines(d));
                i = i + 1;
            }
            assert(column_configs@.take(i as int) =~= column_configs@);
            assert(out@ == base + "\n--- Column Configuration Analysis ---\n"@ + config_lines(d));
        }
        out
    }

    /// The border's characters (with `show_border_info`) and the table drawn with the
    /// default border and lines; a complaint about a row of another length than the first.
    pub fn preview_rendering(&self, data: &TableData, border: &BorderChars, options: &RenderOptions) -> (res:
        Result<String, String>)
        ensures
            first_bad_row(table_view(data.rows@), 0, column_count_of(table_view(data.rows@))) is Some
                <==> res is Err,
            res matches Ok(s) ==> s@ == (if self.settings().show_border_info {
                border_info(*border, *options)
            } else {
                Seq::empty()
            }) + plain_table_spec(
                table_view(data.rows@),
                crate::border::honeywell_chars(),
                RenderOptions { show_top_border: true, show_bottom_border: true, show_row_separators: false },
                Seq::empty(),
            ),
    {
        let mut out = String::new();
        if self.config.show_border_info {
            out = border_info_text(border, options);
        }
        let table = crate::table_data::render_table(data, &BorderChars::default(), &RenderOptions::default());
        match table {
            Ok(text) => {
                push_str(&mut out, text.as_str());
                Ok(out)
            },
            Err(e) => Err(e),
        }
    }

    #[verifier::spinoff_prover]
    #[verifier::rlimit(40)]
    fn write_consistency(&self, out: &mut String, data: &TableData)
        ensures
            final(out)@ == old(out)@ + consistency_text(table_view(data.rows@), self.config),
    {
        let ghost t = table_view(data.rows@);
        let ghost start = out@;
        let m = data.column_count();
        let (rows_at, lens) = inconsistent_rows(data, m);
        let ghost bad = bad_rows(t, m as nat, t.len() as int);
        let on = self.config.use_colors;
        if rows_at.len() == 0 {
            paint_into(out, on, "\x1b[1;32m");
            push_str(out, "✅ All rows have consistent column count\n");
            paint_into(out, on, "\x1b[0m");
            assert(out@ =~= start + consistency_text(t, self.config));
            return;
        }
        paint_into(out, on, "\x1b[1;31m");
        push_str(out, "❌ Found ");
        push_num(out, rows_at.len());
        push_str(out, " rows with inconsistent column count:\n");
        paint_into(out, on, "\x1b[0m");
        let ghost part1 = paint(on, "\x1b[1;31m"@) + "❌ Found "@ + decimal(bad.len())
            + " rows with inconsistent column count:\n"@ + paint(on, "\x1b[0m"@);
        assert(out@ =~= start + part1);
        let shown: usize = if rows_at.len() < 5 {
            rows_at.len()
        } else {
            5
        };
        let ghost lines = Seq::new(
            shown as nat,
            |j: int|
                "  Row "@ + decimal(bad[j].0) + ": "@ + decimal(bad[j].1) + " columns (expected "@ + decimal(
                    m as nat,
                ) + ")\n"@,
        );
        let ghost head = out@;
        let mut j: usize = 0;
        while j < shown
            invariant
                j <= shown <= rows_at@.len() == lens@.len() == bad.len(),
                forall|k: int|
                    0 <= k < bad.len() ==> rows_at@[k] as nat == (#[trigger] bad[k]).0 && lens@[k] as nat
                        == bad[k].1,
                lines == Seq::new(
                    shown as nat,
                    |j: int|
                        "  Row "@ + decimal(bad[j].0) + ": "@ + decimal(bad[j].1) + " columns (expected "@
                            + decimal(m as nat) + ")\n"@,
                ),
                out@ == head + concat_all(lines.take(j as int)),
            decreases shown - j,
        {
            proof {
                assert(lines.take(j + 1).drop_last() =~= lines.take(j as int));
            }
            let ghost before = out@;
            assert(rows_at@[j as int] as nat == bad[j as int].0);
            push_str(out, "  Row ");
            push_num(out, rows_at[j]);
            push_str(out, ": ");
            push_num(out, lens[j]);
            push_str(out, " columns (expected ");
            push_num(out, m);
            push_str(out, ")\n");
            assert(out@ =~= before + lines[j as int]);
            j = j + 1;
        }
        assert(lines.take(j as int) =~= lines);
        let ghost body = out@;
        let ghost tail = if bad.len() > 5 {
            "  ... and "@ + decimal((bad.len() - 5) as nat) + " more\n"@
        } else {
            Seq::<char>::empty()
        };
        if rows_at.len() > 5 {
            push_str(out, "  ... and ");
            push_num(out, rows_at.len() - 5);
            push_str(out, " more\n");
        }
        assert(out@ =~= body + tail);
        assert(consistency_text(t, self.config) == part1 + concat_all(lines) + tail);
        assert(out@ =~= start + consistency_text(t, self.config));
    }


    #[verifier::spinoff_prover]
    #[verifier::rlimit(40)]
    fn write_types(&self, out: &mut String, data: &TableData)
        ensures
            final(out)@ == old(out)@ + types_text(table_view(data.rows@)),
    {
        let ghost t = table_view(data.rows@);
        let ghost start = out@;
        push_str(out, "\nData type analysis per column:\n");
        let m = data.column_count();
        let ghost lines = Seq::new(m as nat, |col: int| column_kinds_line(t, col as nat));
        let ghost head = out@;
        let mut col: usize = 0;
        while col < m
            invariant
                col <= m,
                m == column_count_of(t),
                t == table_view(data.rows@),
                lines == Seq::new(m as nat, |col: int| column_kinds_line(t, col as nat)),
                out@ == head + concat_all(lines.take(col as int)),
            decreases m - col,
        {
            assert(lines.take(col + 1).drop_last() =~= lines.take(col as int));
            let line = kinds_line(data, col);
            push_str(out, line.as_str());
            col = col + 1;
        }
        assert(lines.take(col as int) =~= lines);
        assert(out@ =~= start + types_text(t));
    }

    #[verifier::spinoff_prover]
    #[verifier::rlimit(40)]
    fn write_special(&self, out: &mut String, data: &TableData)
        ensures
            final(out)@ == old(out)@ + special_text(table_view(data.rows@)),
    {
        let ghost t = table_view(data.rows@);
        let all = all_cells_text(data);
        let v = chars_of(all.as_str());
        let nl = has_char(&v, '\n');
        let tab = has_char(&v, '\t');
        let esc = has_char(&v, '\u{1b}');
        let uni = !all_ascii_vec(&v);
        let emo = any_emoji(&v);
        let mut names: Vec<String> = Vec::new();
        let ghost mut gn: Seq<Seq<char>> = Seq::empty();
        proof {
            reveal_strlit("newlines");
            reveal_strlit("tabs");
            reveal_strlit("ANSI sequences");
            reveal_strlit("Unicode");
            reveal_strlit("emojis");
        }
        if nl {
            names.push(owned("newlines"));
        }
        if tab {
            names.push(owned("tabs"));
        }
        if esc {
            names.push(owned("ANSI sequences"));
        }
        if uni {
            names.push(owned("Unicode"));
        }
        if emo {
            names.push(owned("emojis"));
        }
        assert(views(names@) =~= special_names(v@));
        if names.len() == 0 {
            assert(old(out)@ + Seq::<char>::empty() =~= old(out)@);
            return;
        }
        let ghost start = out@;
        let joined = crate::text::join_strings(&names, ", ");
        push_str(out, "\nSpecial characters detected: ");
        push_str(out, joined.as_str());
        push_str(out, "\n");
        if esc {
            push_str(out, "  💡 Consider using render_table_ansi_aware() for ANSI sequences\n");
        }
        if uni || emo {
            push_str(out, "  💡 Consider using render_table_unicode_aware() or emoji-aware functions\n");
        }
        if nl {
            push_str(out, "  💡 Consider using render_table_with_newlines() for multi-line cells\n");
        }
        assert(out@ =~= start + special_text(t));
    }

    #[verifier::spinoff_prover]
    #[verifier::rlimit(40)]
    fn write_widths(&self, out: &mut String, data: &TableData)
        requires
            total(byte_column_widths(table_view(data.rows@))) + byte_column_widths(table_view(data.rows@)).len() * 3
                + 1 <= usize::MAX,
        ensures
            final(out)@ == old(out)@ + widths_text(table_view(data.rows@), self.config),
    {
        let ghost t = table_view(data.rows@);
        if data.is_empty() {
            assert(old(out)@ + Seq::<char>::empty() =~= old(out)@);
            return;
        }
        let ghost start = out@;
        let ghost bs = byte_column_widths(t);
        let ghost us = unicode_widths(t);
        let widths = crate::table_data::calculate_column_widths(data);
        let unicode = crate::unicode::calculate_unicode_column_widths(data.rows.as_slice());
        assert(table_view(data.rows@)[0] == views(data.rows@[0]@));
        push_section(out, &self.config, "\n--- Column Width Analysis ---\n");
        let ghost lines = Seq::new(bs.len(), |i: int| width_line(i as nat, bs[i], us[i], self.config));
        let ghost head = out@;
        let mut sum: usize = 0;
        let mut i: usize = 0;
        while i < widths.len() && i < unicode.len()
            invariant
                i <= widths@.len(),
                widths@.len() == bs.len() == us.len() == unicode@.len(),
                forall|k: int| 0 <= k < widths@.len() ==> widths@[k] as nat == #[trigger] bs[k],
                forall|k: int| 0 <= k < unicode@.len() ==> unicode@[k] as nat == #[trigger] us[k],
                total(bs) + bs.len() * 3 + 1 <= usize::MAX,
                lines == Seq::new(bs.len(), |i: int| width_line(i as nat, bs[i], us[i], self.config)),
                out@ == head + concat_all(lines.take(i as int)),
                sum == total(bs.take(i as int)),
            decreases widths@.len() - i,
        {
            proof {
                lemma_total_prefix(bs, i as int);
                assert(lines.take(i + 1).drop_last() =~= lines.take(i as int));
            }
            let bw = widths[i];
            let uw = unicode[i];
            let ghost before = out@;
            push_str(out, "Column ");
            push_num(out, i);
            push_str(out, ": ");
            push_num(out, bw);
            push_str(out, " chars");
            if bw != uw {
                push_str(out, " (Unicode: ");
                push_num(out, uw);
                push_str(out, " chars)");
                paint_into(out, self.config.use_colors, "\x1b[1;31m ⚠️\x1b[0m");
            }
            push_str(out, "\n");
            assert(out@ =~= before + lines[i as int]);
            sum = sum + bw;
            i = i + 1;
        }
        assert(bs.take(i as int) =~= bs);
        assert(lines.take(i as int) =~= lines);
        push_str(out, "Total content width: ");
        push_num(out, sum);
        push_str(out, " characters\n");
        let est = sum + widths.len() * 3 + 1;
        push_str(out, "Estimated rendered width: ");
        push_num(out, est);
        push_str(out, " characters\n");
        assert(out@ =~= start + widths_text(t, self.config));
    }
}

/// A line per column setting: its index and its text.
pub open spec fn config_lines(d: Seq<Seq<char>>) -> Seq<char> {
    concat_all(Seq::new(d.len(), |i: int| "Column "@ + decimal(i as nat) + ": "@ + d[i] + "\n"@))
}

/// `true` or `false`.
pub open spec fn bool_text(b: bool) -> Seq<char> {
    if b {
        "true"@
    } else {
        "false"@
    }
}

/// A character and its code.
pub open spec fn char_line(label: Seq<char>, c: char) -> Seq<char> {
    label + ": '"@ + seq![c] + "' ("@ + decimal(c as nat) + ")\n"@
}

/// The border's corner, run and wall characters with their codes, and the line options.
pub open spec fn border_info(b: BorderChars, o: RenderOptions) -> Seq<char> {
    "--- Border Configuration ---\n"@ + char_line("Top Left"@, b.top_left) + char_line("Top Right"@, b.top_right)
        + char_line("Horizontal"@, b.horizontal) + char_line("Vertical"@, b.vertical)
        + "Options: RenderOptions { show_top_border: "@ + bool_text(o.show_top_border)
        + ", show_bottom_border: "@ + bool_text(o.show_bottom_border) + ", show_row_separators: "@
        + bool_text(o.show_row_separators) + " }\n"@ + "\n"@
}

fn push_bool(out: &mut String, b: bool)
    ensures
        final(out)@ == old(out)@ + bool_text(b),
{
    if b {
        push_str(out, "true");
    } else {
        push_str(out, "false");
    }
}

fn push_char_line(out: &mut String, label: &str, c: char)
    ensures
        final(out)@ == old(out)@ + char_line(label@, c),
{
    let ghost start = out@;
    push_str(out, label);
    push_str(out, ": '");
    push_char(out, c);
    push_str(out, "' (");
    push_num(out, c as u32 as usize);
    push_str(out, ")\n");
    assert(out@ =~= start + char_line(label@, c));
}

/// The border information (see `border_info`).
fn border_info_text(b: &BorderChars, o: &RenderOptions) -> (res: String)
    ensures
        res@ == border_info(*b, *o),
{
    let mut out = String::new();
    push_str(&mut out, "--- Border Configuration ---\n");
    push_char_line(&mut out, "Top Left", b.top_left);
    push_char_line(&mut out, "Top Right", b.top_right);
    push_char_line(&mut out, "Horizontal", b.horizontal);
    push_char_line(&mut out, "Vertical", b.vertical);
    push_str(&mut out, "Options: RenderOptions { show_top_border: ");
    push_bool(&mut out, o.show_top_border);
    push_str(&mut out, ", show_bottom_border: ");
    push_bool(&mut out, o.show_bottom_border);
    push_str(&mut out, ", show_row_separators: ");
    push_bool(&mut out, o.show_row_separators);
    push_str(&mut out, " }\n");
    push_str(&mut out, "\n");
    assert(out@ =~= border_info(*b, *o));
    out
}

/// A `usize` option as `Debug` writes it.
pub open spec fn option_text(o: Option<usize>) -> Seq<char> {
    match o {
        Some(n) => "Some("@ + decimal(n as nat) + ")"@,
        None => "None"@,
    }
}

/// The name of an alignment.
pub open spec fn alignment_text(a: Alignment) -> Seq<char> {
    match a {
        Alignment::Left => "Left"@,
        Alignment::Right => "Right"@,
        Alignment::Center => "Center"@,
        Alignment::Justify => "Justify"@,
    }
}

/// The name of a vertical alignment.
pub open spec fn vertical_text(a: VerticalAlignment) -> Seq<char> {
    match a {
        VerticalAlignment::Top => "Top"@,
        VerticalAlignment::Middle => "Middle"@,
        VerticalAlignment::Bottom => "Bottom"@,
    }
}

/// The name of a wrapping mode (no wrapping is `None`).
pub open spec fn wrap_mode_text(m: WrapMode) -> Seq<char> {
    match m {
        WrapMode::Word => "Word"@,
        WrapMode::Character => "Character"@,
        WrapMode::NoWrap => "None"@,
    }
}

/// A hexadecimal digit, in lower case.
pub open spec fn hex_digit(d: nat) -> char {
    if d < 10 {
        (48 + d) as char
    } else {
        (87 + d) as char
    }
}

/// A number in lower-case hexadecimal, without leading zeros.
pub open spec fn hex(n: nat) -> Seq<char>
    decreases n,
{
    if n < 16 {
        seq![hex_digit(n)]
    } else {
        hex(n / 16) + seq![hex_digit(n % 16)]
    }
}

/// A character inside a quoted string as `Debug` writes it: tab, return, line feed, NUL,
/// backslash and double quote by their escapes, another ASCII control character as
/// `\u{..}`, any other character as it is.
pub open spec fn escaped_char(c: char) -> Seq<char> {
    if c == '\t' {
        "\\t"@
    } else if c == '\r' {
        "\\r"@
    } else if c == '\n' {
        "\\n"@
    } else if c == '\0' {
        "\\0"@
    } else if c == '\\' {
        "\\\\"@
    } else if c == '"' {
        "\\\""@
    } else if (c as u32) < 32 || c as u32 == 127 {
        "\\u{"@ + hex((c as u32) as nat) + "}"@
    } else {
        seq![c]
    }
}

/// A string's characters, each as `escaped_char` writes it.
pub open spec fn escaped(s: Seq<char>) -> Seq<char>
    decreases s.len(),
{
    if s.len() == 0 {
        Seq::empty()
    } else {
        escaped(s.drop_last()) + escaped_char(s.last())
    }
}

/// A wrapping setting, if any, as `Debug` writes it.
pub open spec fn wrap_text(w: Option<WrapConfig>) -> Seq<char> {
    match w {
        Some(w) => "Some(WrapConfig { mode: "@ + wrap_mode_text(w.mode) + ", width: "@ + decimal(w.width as nat)
            + ", preserve_whitespace: "@ + bool_text(w.preserve_whitespace) + " })"@,
        None => "None"@,
    }
}

/// A column setting as `Debug` writes it: the type's name and each field by name, in order,
/// the ellipsis between double quotes.
pub open spec fn column_debug(c: ColumnConfig) -> Seq<char> {
    "ColumnConfig { width: "@ + option_text(c.width) + ", alignment: "@ + alignment_text(c.alignment)
        + ", vertical_alignment: "@ + vertical_text(c.vertical_alignment) + ", padding: Padding { left: "@
        + decimal(c.padding.left as nat) + ", right: "@ + decimal(c.padding.right as nat)
        + " }, truncation: TruncationConfig { max_width: "@ + option_text(c.truncation.max_width)
        + ", ellipsis: \""@ + escaped(c.truncation.ellipsis@) + "\", truncate_start: "@ + bool_text(
        c.truncation.truncate_start,
    ) + " }, wrap_config: "@ + wrap_text(c.wrap_config) + " }"@
}

fn push_option(out: &mut String, o: Option<usize>)
    ensures
        final(out)@ == old(out)@ + option_text(o),
{
    match o {
        Some(n) => {
            let ghost start = out@;
            push_str(out, "Some(");
            push_num(out, n);
            push_str(out, ")");
            assert(out@ =~= start + option_text(o));
        },
        None => push_str(out, "None"),
    }
}

fn push_hex(out: &mut String, n: u32)
    ensures
        final(out)@ == old(out)@ + hex(n as nat),
    decreases n,
{
    let ghost start = out@;
    if n >= 16 {
        push_hex(out, n / 16);
    }
    let d = n % 16;
    let c = if d < 10 {
        char_of(48 + d)
    } else {
        char_of(87 + d)
    };
    push_char(out, c);
    assert(out@ =~= start + hex(n as nat));
}

/// The character with a code below 128.
fn char_of(n: u32) -> (c: char)
    requires
        n < 128,
    ensures
        c == n as char,
{
    let b: u8 = n as u8;
    b as char
}

fn push_escaped(out: &mut String, s: &str)
    ensures
        final(out)@ == old(out)@ + escaped(s@),
{
    let v = chars_of(s);
    let ghost start = out@;
    let mut i: usize = 0;
    while i < v.len()
        invariant
            i <= v@.len(),
            v@ == s@,
            out@ == start + escaped(v@.take(i as int)),
        decreases v@.len() - i,
    {
        let c = v[i];
        let ghost before = out@;
        if c == '\t' {
            push_str(out, "\\t");
        } else if c == '\r' {
            push_str(out, "\\r");
        } else if c == '\n' {
            push_str(out, "\\n");
        } else if c == '\0' {
            push_str(out, "\\0");
        } else if c == '\\' {
            push_str(out, "\\\\");
        } else if c == '"' {
            push_str(out, "\\\"");
        } else if (c as u32) < 32 || c as u32 == 127 {
            push_str(out, "\\u{");
            push_hex(out, c as u32);
            push_str(out, "}");
            assert(out@ =~= before + escaped_char(c));
        } else {
            push_char(out, c);
            assert(out@ =~= before + escaped_char(c));
        }
        assert(out@ =~= before + escaped_char(c));
        assert(v@.take(i + 1).drop_last() =~= v@.take(i as int));
        i = i + 1;
    }
    assert(v@.take(i as int) =~= v@);
}

fn push_alignment(out: &mut String, a: Alignment)
    ensures
        final(out)@ == old(out)@ + alignment_text(a),
{
    match a {
        Alignment::Left => push_str(out, "Left"),
        Alignment::Right => push_str(out, "Right"),
        Alignment::Center => push_str(out, "Center"),
        Alignment::Justify => push_str(out, "Justify"),
    }
}

fn push_vertical(out: &mut String, a: VerticalAlignment)
    ensures
        final(out)@ == old(out)@ + vertical_text(a),
{
    match a {
        VerticalAlignment::Top => push_str(out, "Top"),
        VerticalAlignment::Middle => push_str(out, "Middle"),
        VerticalAlignment::Bottom => push_str(out, "Bottom"),
    }
}

fn push_wrap(out: &mut String, w: &Option<WrapConfig>)
    ensures
        final(out)@ == old(out)@ + wrap_text(*w),
{
    match w {
        Some(w) => {
            let ghost start = out@;
            push_str(out, "Some(WrapConfig { mode: ");
            match w.mode {
                WrapMode::Word => push_str(out, "Word"),
                WrapMode::Character => push_str(out, "Character"),
                WrapMode::NoWrap => push_str(out, "None"),
            }
            push_str(out, ", width: ");
            push_num(out, w.width);
            push_str(out, ", preserve_whitespace: ");
            push_bool(out, w.preserve_whitespace);
            push_str(out, " })");
            assert(out@ =~= start + wrap_text(Some(*w)));
        },
        None => push_str(out, "None"),
    }
}

/// A column setting as `Debug` writes it (see `column_debug`).
#[verifier::spinoff_prover]
fn column_debug_text(c: &ColumnConfig) -> (res: String)
    ensures
        res@ == column_debug(*c),
{
    let mut out = String::new();
    push_str(&mut out, "ColumnConfig { width: ");
    push_option(&mut out, c.width);
    push_str(&mut out, ", alignment: ");
    push_alignment(&mut out, c.alignment);
    push_str(&mut out, ", vertical_alignment: ");
    push_vertical(&mut out, c.vertical_alignment);
    push_str(&mut out, ", padding: Padding { left: ");
    push_num(&mut out, c.padding.left);
    push_str(&mut out, ", right: ");
    push_num(&mut out, c.padding.right);
    let ghost first = out@;
    push_str(&mut out, " }, truncation: TruncationConfig { max_width: ");
    push_option(&mut out, c.truncation.max_width);
    push_str(&mut out, ", ellipsis: \"");
    push_escaped(&mut out, c.truncation.ellipsis.as_str());
    push_str(&mut out, "\", truncate_start: ");
    push_bool(&mut out, c.truncation.truncate_start);
    push_str(&mut out, " }, wrap_config: ");
    push_wrap(&mut out, &c.wrap_config);
    push_str(&mut out, " }");
    assert(first =~= "ColumnConfig { width: "@ + option_text(c.width) + ", alignment: "@ + alignment_text(c.alignment)
        + ", vertical_alignment: "@ + vertical_text(c.vertical_alignment) + ", padding: Padding { left: "@
        + decimal(c.padding.left as nat) + ", right: "@ + decimal(c.padding.right as nat));
    assert(out@ =~= column_debug(*c));
    out
}

/// The findings with the default settings.
pub fn debug_table(data: &TableData) -> (res: String)
    requires
        analysis_ok(table_view(data.rows@), default_debug()),
    ensures
        res@ == analysis_text(table_view(data.rows@), default_debug()),
{
    let debugger = TableDebugger::new(DebugConfig::default());
    debugger.analyze_table(data)
}

/// The findings with the compact settings.
pub fn debug_table_compact(data: &TableData) -> (res: String)
    requires
        analysis_ok(table_view(data.rows@), compact_debug()),
    ensures
        res@ == analysis_text(table_view(data.rows@), compact_debug()),
{
    let debugger = TableDebugger::new(DebugConfig::compact());
    debugger.analyze_table(data)
}

/// The findings with the verbose settings.
pub fn debug_table_verbose(data: &TableData) -> (res: String)
    requires
        analysis_ok(table_view(data.rows@), verbose_debug()),
    ensures
        res@ == analysis_text(table_view(data.rows@), verbose_debug()),
{
    let debugger = TableDebugger::new(DebugConfig::verbose());
    debugger.analyze_table(data)
}

/// The default debug settings.
pub open spec fn default_debug() -> DebugConfig {
    DebugConfig {
        show_dimensions: true,
        show_column_widths: true,
        show_cell_contents: true,
        show_border_info: false,
        show_alignment_info: false,
        show_performance_stats: false,
        max_cell_preview: 20,
        compact_output: false,
        use_colors: true,
    }
}

/// The compact debug settings.
pub open spec fn compact_debug() -> DebugConfig {
    DebugConfig {
        show_dimensions: true,
        show_column_widths: false,
        show_cell_contents: true,
        show_border_info: false,
        show_alignment_info: false,
        show_performance_stats: false,
        max_cell_preview: 10,
        compact_output: true,
        use_colors: false,
    }
}

/// The verbose debug settings.
pub open spec fn verbose_debug() -> DebugConfig {
    DebugConfig {
        show_dimensions: true,
        show_column_widths: true,
        show_cell_contents: true,
        show_border_info: true,
        show_alignment_info: true,
        show_performance_stats: true,
        max_cell_preview: 50,
        compact_output: false,
        use_colors: true,
    }
}

/// What `validate_and_recommend` gives: for an empty table a note and advice; else whether
/// the rows are consistent, a note on a table of more than 10000 cells, and a note on
/// non-ASCII content, each with advice.
pub open spec fn recommend_text(t: Seq<Seq<Seq<char>>>) -> Seq<char> {
    let m = column_count_of(t);
    let bad = bad_rows(t, m, t.len() as int).len();
    let cells = times(t.len(), m);
    "=== Table Validation & Recommendations ===\n"@ + if t.len() == 0 {
        "❌ Table is empty\n"@ + "💡 Recommendation: Add data before rendering\n"@
    } else {
        (if bad == 0 {
            "✅ All rows have consistent column count\n"@
        } else {
            "❌ "@ + decimal(bad) + " rows have inconsistent column count\n"@
                + "💡 Recommendation: Use validate_table_data() before rendering\n"@
        }) + (if cells > 10000 {
            "🔶 Large table detected ("@ + decimal(cells) + " cells)\n"@
                + "💡 Recommendation: Consider using streaming API or performance optimizations\n"@
        } else {
            Seq::empty()
        }) + if !all_ascii(all_text(t)) {
            "🌐 Unicode content detected\n"@
                + "💡 Recommendation: Use render_table_unicode_aware() for proper width calculation\n"@
        } else {
            Seq::empty()
        }
    }
}

/// Checks a table's structure and gives advice (see `recommend_text`).
pub fn validate_and_recommend(data: &TableData) -> (res: String)
    requires
        times(data.rows@.len(), column_count_of(table_view(data.rows@))) <= usize::MAX,
    ensures
        res@ == recommend_text(table_view(data.rows@)),
{
    let ghost t = table_view(data.rows@);
    let mut out = String::new();
    push_str(&mut out, "=== Table Validation & Recommendations ===\n");
    if data.is_empty() {
        push_str(&mut out, "❌ Table is empty\n");
        push_str(&mut out, "💡 Recommendation: Add data before rendering\n");
        assert(out@ =~= recommend_text(t));
        return out;
    }
    let ghost start = out@;
    let m = data.column_count();
    let (bad, _) = inconsistent_rows(data, m);
    let ghost part1 = if bad.len() == 0 {
        "✅ All rows have consistent column count\n"@
    } else {
        "❌ "@ + decimal(bad.len() as nat) + " rows have inconsistent column count\n"@
            + "💡 Recommendation: Use validate_table_data() before rendering\n"@
    };
    if bad.len() == 0 {
        push_str(&mut out, "✅ All rows have consistent column count\n");
    } else {
        push_str(&mut out, "❌ ");
        push_num(&mut out, bad.len());
        push_str(&mut out, " rows have inconsistent column count\n");
        push_str(&mut out, "💡 Recommendation: Use validate_table_data() before rendering\n");
    }
    assert(out@ =~= start + part1);
    let ghost b = out@;
    let cells = product(data.row_count(), m);
    let ghost part2 = if cells > 10000 {
        "🔶 Large table detected ("@ + decimal(cells as nat) + " cells)\n"@
            + "💡 Recommendation: Consider using streaming API or performance optimizations\n"@
    } else {
        Seq::<char>::empty()
    };
    if cells > 10000 {
        push_str(&mut out, "🔶 Large table detected (");
        push_num(&mut out, cells);
        push_str(&mut out, " cells)\n");
        push_str(&mut out, "💡 Recommendation: Consider using streaming API or performance optimizations\n");
    }
    assert(out@ =~= b + part2);
    let ghost c = out@;
    let all = all_cells_text(data);
    let v = chars_of(all.as_str());
    let ghost part3 = if !all_ascii(all_text(t)) {
        "🌐 Unicode content detected\n"@
            + "💡 Recommendation: Use render_table_unicode_aware() for proper width calculation\n"@
    } else {
        Seq::<char>::empty()
    };
    if !all_ascii_vec(&v) {
        push_str(&mut out, "🌐 Unicode content detected\n");
        push_str(&mut out, "💡 Recommendation: Use render_table_unicode_aware() for proper width calculation\n");
    }
    assert(out@ =~= c + part3);
    assert(recommend_text(t) == "=== Table Validation & Recommendations ===\n"@ + part1 + part2 + part3);
    assert(out@ =~= recommend_text(t));
    out
}

} // verus!
