use crate::table_data::{column_count_of, first_bad_row, lemma_no_bad_row, row_length_msg, validate_table_data, TableData};
use crate::text::{join_seq, nsub, owned, push_char, push_str, views};
use crate::types::Row;
use crate::utils::ansi::byte_len;
use crate::utils::formatting::table_view;
use vstd::prelude::*;
use vstd::utf8::{decode_utf8, encode_utf8, is_char_boundary};

verus! {

/// How a table is written as lines of separated fields.
#[derive(Debug, Clone)]
pub struct SingleLineConfig {
    pub separator: String,
    pub field_separator: String,
    pub quote_fields: bool,
    pub quote_character: char,
    pub escape_quotes: bool,
    pub include_headers: bool,
    pub max_field_width: Option<usize>,
}

/// The settings of a `SingleLineConfig`, with texts as character sequences.
pub struct SingleLineSettings {
    pub separator: Seq<char>,
    pub field_separator: Seq<char>,
    pub quote_fields: bool,
    pub quote_character: char,
    pub escape_quotes: bool,
    pub include_headers: bool,
    pub max_field_width: Option<usize>,
}

impl View for SingleLineConfig {
    type V = SingleLineSettings;

    open spec fn view(&self) -> SingleLineSettings {
        SingleLineSettings {
            separator: self.separator@,
            field_separator: self.field_separator@,
            quote_fields: self.quote_fields,
            quote_character: self.quote_character,
            escape_quotes: self.escape_quotes,
            include_headers: self.include_headers,
            max_field_width: self.max_field_width,
        }
    }
}

/// The default settings: ` | ` between fields, a space between rows, no quotes (but `"`
/// escaped when quoting is turned on), the header row included, no field limit.
pub open spec fn default_single_line() -> SingleLineSettings {
    SingleLineSettings {
        separator: " | "@,
        field_separator: " "@,
        quote_fields: false,
        quote_character: '"',
        escape_quotes: true,
        include_headers: true,
        max_field_width: None,
    }
}

impl Default for SingleLineConfig {
    fn default() -> (res: Self)
        ensures
            res@ == default_single_line(),
    {
        SingleLineConfig {
            separator: owned(" | "),
            field_separator: owned(" "),
            quote_fields: false,
            quote_character: '"',
            escape_quotes: true,
            include_headers: true,
            max_field_width: None,
        }
    }
}

impl SingleLineConfig {
    /// The default settings.
    pub fn new() -> (res: Self)
        ensures
            res@ == default_single_line(),
    {
        Self::default()
    }

    /// The same settings with another separator between fields.
    pub fn with_separator(self, separator: &str) -> (res: Self)
        ensures
            res@ == (SingleLineSettings { separator: separator@, ..self@ }),
    {
        SingleLineConfig { separator: owned(separator), ..self }
    }

    /// The same settings with another separator between rows written on one line.
    pub fn with_field_separator(self, separator: &str) -> (res: Self)
        ensures
            res@ == (SingleLineSettings { field_separator: separator@, ..self@ }),
    {
        SingleLineConfig { field_separator: owned(separator), ..self }
    }

    /// The same settings with fields quoted by `quote_char`.
    pub fn with_quotes(self, quote_char: char) -> (res: Self)
        ensures
            res@ == (SingleLineSettings { quote_fields: true, quote_character: quote_char, ..self@ }),
    {
        SingleLineConfig { quote_fields: true, quote_character: quote_char, ..self }
    }

    /// The same settings with quotes inside fields escaped or not.
    pub fn with_escape_quotes(self, escape: bool) -> (res: Self)
        ensures
            res@ == (SingleLineSettings { escape_quotes: escape, ..self@ }),
    {
        SingleLineConfig { escape_quotes: escape, ..self }
    }

    /// The same settings without the header row.
    pub fn without_headers(self) -> (res: Self)
        ensures
            res@ == (SingleLineSettings { include_headers: false, ..self@ }),
    {
        SingleLineConfig { include_headers: false, ..self }
    }

    /// The same settings with fields longer than `width` bytes cut.
    pub fn with_max_field_width(self, width: usize) -> (res: Self)
        ensures
            res@ == (SingleLineSettings { max_field_width: Some(width), ..self@ }),
    {
        SingleLineConfig { max_field_width: Some(width), ..self }
    }

    /// Comma-separated, quoted fields.
    pub fn csv() -> (res: Self)
        ensures
            res@ == (SingleLineSettings {
                separator: ","@,
                field_separator: ""@,
                quote_fields: true,
                quote_character: '"',
                ..default_single_line()
            }),
    {
        Self::new().with_separator(",").with_quotes('"').with_field_separator("")
    }

    /// Tab-separated fields, no header row.
    pub fn tsv() -> (res: Self)
        ensures
            res@ == (SingleLineSettings {
                separator: "\t"@,
                field_separator: ""@,
                include_headers: false,
                ..default_single_line()
            }),
    {
        Self::new().with_separator("\t").with_field_separator("").without_headers()
    }

    /// Pipe-separated fields.
    pub fn psv() -> (res: Self)
        ensures
            res@ == (SingleLineSettings { separator: " | "@, field_separator: " "@, ..default_single_line() }),
    {
        Self::new().with_separator(" | ").with_field_separator(" ")
    }

    /// Space-separated fields of at most 15 bytes.
    pub fn compact() -> (res: Self)
        ensures
            res@ == (SingleLineSettings {
                separator: " "@,
                field_separator: ""@,
                max_field_width: Some(15),
                ..default_single_line()
            }),
    {
        Self::new().with_separator(" ").with_field_separator("").with_max_field_width(15)
    }

    /// Quoted fields separated by `, `.
    pub fn json_array() -> (res: Self)
        ensures
            res@ == (SingleLineSettings {
                separator: ", "@,
                field_separator: ""@,
                quote_fields: true,
                quote_character: '"',
                ..default_single_line()
            }),
    {
        Self::new().with_separator(", ").with_quotes('"').with_field_separator("")
    }
}

/// A field cut to the limit: one longer than `max` bytes keeps its first `max - 3` bytes
/// (none when `max < 3`) and gets `...`.
pub open spec fn field_cut(f: Seq<char>, max: Option<usize>) -> Seq<char> {
    match max {
        Some(m) => if byte_len(f) > m {
            decode_utf8(encode_utf8(f).subrange(0, nsub(m as nat, 3) as int)) + "..."@
        } else {
            f
        },
        None => f,
    }
}

/// Whether a field can be cut to the limit: the cut falls between characters.
pub open spec fn field_ok(f: Seq<char>, max: Option<usize>) -> bool {
    match max {
        Some(m) => byte_len(f) > m ==> is_char_boundary(encode_utf8(f), nsub(m as nat, 3) as int),
        None => true,
    }
}

/// Whether every cell of `t` can be cut to the limit.
pub open spec fn fields_ok(t: Seq<Seq<Seq<char>>>, max: Option<usize>) -> bool {
    forall|r: int, c: int| 0 <= r < t.len() && 0 <= c < t[r].len() ==> field_ok(#[trigger] t[r][c], max)
}

/// `s` with a backslash before each `q`.
pub open spec fn escape_quote(s: Seq<char>, q: char) -> Seq<char>
    decreases s.len(),
{
    if s.len() == 0 {
        Seq::empty()
    } else {
        escape_quote(s.drop_last(), q) + if s.last() == q {
            seq!['\\', q]
        } else {
            seq![s.last()]
        }
    }
}

/// A field as written: cut to the limit, then, when quoting, its quotes escaped (when asked)
/// and the whole between quotes.
pub open spec fn field_spec(f: Seq<char>, c: SingleLineSettings) -> Seq<char> {
    let p = field_cut(f, c.max_field_width);
    if c.quote_fields {
        seq![c.quote_character] + (if c.escape_quotes { escape_quote(p, c.quote_character) } else { p })
            + seq![c.quote_character]
    } else {
        p
    }
}

/// A row as written: its fields joined by the separator.
pub open spec fn row_line(row: Seq<Seq<char>>, c: SingleLineSettings) -> Seq<char> {
    join_seq(row.map_values(|f: Seq<char>| field_spec(f, c)), c.separator)
}

/// Rows `start..n` of `t`, each followed by a line break unless it is the last row of `t`.
pub open spec fn lines_from(t: Seq<Seq<Seq<char>>>, c: SingleLineSettings, start: int, n: int) -> Seq<char>
    decreases n - start,
{
    if n <= start {
        Seq::empty()
    } else {
        lines_from(t, c, start, n - 1) + row_line(t[n - 1], c) + if n - 1 < t.len() - 1 {
            seq!['\n']
        } else {
            Seq::empty()
        }
    }
}

/// What `render_single_line_table` gives for a valid table: one line per row, from the
/// second row when the header is left out.
pub open spec fn single_line_spec(t: Seq<Seq<Seq<char>>>, c: SingleLineSettings) -> Seq<char> {
    if t.len() == 0 {
        Seq::empty()
    } else {
        lines_from(t, c, if c.include_headers { 0 } else { 1 }, t.len() as int)
    }
}

/// A table's validity: every row as long as the first, else the message naming the first
/// row that is not.
pub open spec fn valid_or_msg(t: Seq<Seq<Seq<char>>>, res: Result<String, String>) -> bool {
    first_bad_row(t, 0, column_count_of(t)) matches Some(i) ==> (res matches Err(m) && m@ == row_length_msg(
        i,
        t[i as int].len(),
        column_count_of(t),
    ))
}

/// A byte prefix of a string that ends between characters.
pub(crate) fn cut_bytes(s: &str, n: usize) -> (res: String)
    requires
        n <= encode_utf8(s@).len(),
        is_char_boundary(encode_utf8(s@), n as int),
    ensures
        res@ == decode_utf8(encode_utf8(s@).subrange(0, n as int)),
{
    let (head, _) = s.split_at(n);
    proof {
        vstd::utf8::encode_utf8_decode_utf8(head@);
    }
    owned(head)
}

/// `s` with a backslash before each `q` (see `escape_quote`).
fn escape_quotes_in(s: &str, q: char) -> (res: String)
    ensures
        res@ == escape_quote(s@, q),
{
    let v = crate::text::chars_of(s);
    let mut out = String::new();
    let mut i: usize = 0;
    while i < v.len()
        invariant
            i <= v@.len(),
            v@ == s@,
            out@ == escape_quote(v@.take(i as int), q),
        decreases v.len() - i,
    {
        if v[i] == q {
            push_char(&mut out, '\\');
            push_char(&mut out, q);
        } else {
            push_char(&mut out, v[i]);
        }
        assert(v@.take(i + 1).drop_last() =~= v@.take(i as int));
        i = i + 1;
        assert(out@ =~= escape_quote(v@.take(i as int), q));
    }
    assert(v@.take(i as int) =~= v@);
    out
}

/// One field as written (see `field_spec`).
fn process_field(field: &str, config: &SingleLineConfig) -> (res: String)
    requires
        field_ok(field@, config.max_field_width),
    ensures
        res@ == field_spec(field@, config@),
{
    let mut processed = owned(field);
    if let Some(max_width) = config.max_field_width {
        if field.as_bytes().len() > max_width {
            let keep = max_width.saturating_sub(3);
            let head = cut_bytes(field, keep);
            processed = crate::text::concat2(head.as_str(), "...");
            assert(keep == nsub(max_width as nat, 3));
        }
    }
    assert(processed@ == field_cut(field@, config.max_field_width));
    if config.quote_fields {
        let inner = if config.escape_quotes {
            escape_quotes_in(processed.as_str(), config.quote_character)
        } else {
            processed
        };
        let mut q = String::new();
        push_char(&mut q, config.quote_character);
        push_str(&mut q, inner.as_str());
        push_char(&mut q, config.quote_character);
        assert(q@ =~= seq![config.quote_character] + inner@ + seq![config.quote_character]);
        q
    } else {
        processed
    }
}

/// The fields of `row` from `start` on, as written.
fn process_fields(row: &Vec<String>, start: usize, config: &SingleLineConfig) -> (res: Vec<String>)
    requires
        start <= row@.len(),
        forall|k: int| start <= k < row@.len() ==> field_ok(#[trigger] row@[k]@, config.max_field_width),
    ensures
        views(res@) == views(row@).skip(start as int).map_values(|f: Seq<char>| field_spec(f, config@)),
{
    let mut out: Vec<String> = Vec::new();
    let mut i: usize = start;
    while i < row.len()
        invariant
            start <= i <= row@.len(),
            forall|k: int| start <= k < row@.len() ==> field_ok(#[trigger] row@[k]@, config.max_field_width),
            views(out@) == views(row@).subrange(start as int, i as int).map_values(
                |f: Seq<char>| field_spec(f, config@),
            ),
        decreases row.len() - i,
    {
        let p = process_field(row[i].as_str(), config);
        let ghost before = views(out@);
        out.push(p);
        assert(views(out@) =~= before.push(p@));
        i = i + 1;
        assert(views(out@) =~= views(row@).subrange(start as int, i as int).map_values(
            |f: Seq<char>| field_spec(f, config@),
        ));
    }
    assert(views(row@).subrange(start as int, i as int) =~= views(row@).skip(start as int));
    out
}

/// One row as written (see `row_line`).
fn process_row(row: &Vec<String>, config: &SingleLineConfig) -> (res: String)
    requires
        forall|k: int| 0 <= k < row@.len() ==> field_ok(#[trigger] row@[k]@, config.max_field_width),
    ensures
        res@ == row_line(views(row@), config@),
{
    let fields = process_fields(row, 0, config);
    assert(views(row@).skip(0) =~= views(row@));
    crate::text::join_strings(&fields, config.separator.as_str())
}

/// The table written one row per line (see `single_line_spec`), after checking that every
/// row is as long as the first.
pub fn render_single_line_table(data: &TableData, config: &SingleLineConfig) -> (res: Result<String, String>)
    requires
        fields_ok(table_view(data.rows@), config.max_field_width),
    ensures
        valid_or_msg(table_view(data.rows@), res),
        first_bad_row(table_view(data.rows@), 0, column_count_of(table_view(data.rows@))) is None ==> (res matches Ok(s)
            && s@ == single_line_spec(table_view(data.rows@), config@)),
{
    let ghost t = table_view(data.rows@);
    match validate_table_data(data) {
        Ok(_) => {},
        Err(e) => {
            return Err(e);
        },
    }
    if data.is_empty() {
        return Ok(String::new());
    }
    let start: usize = if config.include_headers { 0 } else { 1 };
    let mut result = String::new();
    let mut i: usize = start;
    if i > data.rows.len() {
        i = data.rows.len();
    }
    let ghost st = start as int;
    assert(result@ =~= lines_from(t, config@, st, i as int));
    while i < data.rows.len()
        invariant
            st <= i <= data.rows@.len(),
            t == table_view(data.rows@),
            data.rows@.len() > 0,
            fields_ok(t, config.max_field_width),
            result@ == lines_from(t, config@, st, i as int),
        decreases data.rows.len() - i,
    {
        assert forall|k: int| 0 <= k < data.rows@[i as int]@.len() implies field_ok(
            #[trigger] data.rows@[i as int]@[k]@,
            config.max_field_width,
        ) by {
            assert(t[i as int][k] == data.rows@[i as int]@[k]@);
        }
        let line = process_row(&data.rows[i], config);
        push_str(&mut result, line.as_str());
        if i < data.rows.len() - 1 {
            push_char(&mut result, '\n');
        }
        i = i + 1;
        assert(result@ =~= lines_from(t, config@, st, i as int));
    }
    Ok(result)
}

/// All rows written on one line: each row's fields joined by the separator, the rows joined
/// by the row separator.
pub open spec fn compact_spec(t: Seq<Seq<Seq<char>>>, c: SingleLineSettings) -> Seq<char> {
    join_seq(t.map_values(|row: Seq<Seq<char>>| row_line(row, c)), c.field_separator)
}

/// The table written on one line (see `compact_spec`), after checking that every row is as
/// long as the first.
pub fn render_compact_single_line(data: &TableData, config: &SingleLineConfig) -> (res: Result<String, String>)
    requires
        fields_ok(table_view(data.rows@), config.max_field_width),
    ensures
        valid_or_msg(table_view(data.rows@), res),
        first_bad_row(table_view(data.rows@), 0, column_count_of(table_view(data.rows@))) is None ==> (res matches Ok(s)
            && s@ == compact_spec(table_view(data.rows@), config@)),
{
    let ghost t = table_view(data.rows@);
    match validate_table_data(data) {
        Ok(_) => {},
        Err(e) => {
            return Err(e);
        },
    }
    if data.is_empty() {
        assert(t.map_values(|row: Seq<Seq<char>>| row_line(row, config@)) =~= Seq::<Seq<char>>::empty());
        return Ok(String::new());
    }
    let mut lines: Vec<String> = Vec::new();
    let mut i: usize = 0;
    while i < data.rows.len()
        invariant
            i <= data.rows@.len(),
            t == table_view(data.rows@),
            fields_ok(t, config.max_field_width),
            views(lines@) == t.take(i as int).map_values(|row: Seq<Seq<char>>| row_line(row, config@)),
        decreases data.rows.len() - i,
    {
        assert forall|k: int| 0 <= k < data.rows@[i as int]@.len() implies field_ok(
            #[trigger] data.rows@[i as int]@[k]@,
            config.max_field_width,
        ) by {
            assert(t[i as int][k] == data.rows@[i as int]@[k]@);
        }
        let line = process_row(&data.rows[i], config);
        let ghost before = views(lines@);
        lines.push(line);
        assert(views(lines@) =~= before.push(line@));
        i = i + 1;
        assert(views(lines@) =~= t.take(i as int).map_values(|row: Seq<Seq<char>>| row_line(row, config@)));
    }
    assert(t.take(i as int) =~= t);
    Ok(crate::text::join_strings(&lines, config.field_separator.as_str()))
}

/// A row as a key and its values: the first field, `: ` and the other fields joined by the
/// separator.
pub open spec fn pair_line(row: Seq<Seq<char>>, c: SingleLineSettings) -> Seq<char> {
    field_spec(row[0], c) + ": "@ + join_seq(row.skip(1).map_values(|f: Seq<char>| field_spec(f, c)), c.separator)
}

/// Rows `start..n` as key and values, each followed by a line break unless it is the last
/// row of `t`.
pub open spec fn pairs_from(t: Seq<Seq<Seq<char>>>, c: SingleLineSettings, start: int, n: int) -> Seq<char>
    decreases n - start,
{
    if n <= start {
        Seq::empty()
    } else {
        pairs_from(t, c, start, n - 1) + if t[n - 1].len() == 0 {
            Seq::empty()
        } else {
            pair_line(t[n - 1], c) + if n - 1 < t.len() - 1 {
                seq!['\n']
            } else {
                Seq::empty()
            }
        }
    }
}

/// The rows as key and values (see `pairs_from`), from the second row when the header is
/// left out; a table needs two columns for it.
pub fn render_key_value_pairs(data: &TableData, config: &SingleLineConfig) -> (res: Result<String, String>)
    requires
        fields_ok(table_view(data.rows@), config.max_field_width),
    ensures
        valid_or_msg(table_view(data.rows@), res),
        first_bad_row(table_view(data.rows@), 0, column_count_of(table_view(data.rows@))) is None ==> {
            let t = table_view(data.rows@);
            if t.len() == 0 {
                res matches Ok(s) && s@.len() == 0
            } else if column_count_of(t) < 2 {
                res matches Err(m) && m@ == "Key-value format requires at least 2 columns"@
            } else {
                res matches Ok(s) && s@ == pairs_from(t, config@, if config.include_headers { 0 } else { 1 }, t.len() as int)
            }
        },
{
    let ghost t = table_view(data.rows@);
    match validate_table_data(data) {
        Ok(_) => {},
        Err(e) => {
            return Err(e);
        },
    }
    if data.is_empty() {
        return Ok(String::new());
    }
    if data.column_count() < 2 {
        return Err(owned("Key-value format requires at least 2 columns"));
    }
    let start: usize = if config.include_headers { 0 } else { 1 };
    let ghost st = start as int;
    let mut result = String::new();
    let mut i: usize = start;
    assert(result@ =~= pairs_from(t, config@, st, i as int));
    while i < data.rows.len()
        invariant
            st <= i <= data.rows@.len(),
            t == table_view(data.rows@),
            data.rows@.len() > 0,
            fields_ok(t, config.max_field_width),
            result@ == pairs_from(t, config@, st, i as int),
        decreases data.rows.len() - i,
    {
        let row = &data.rows[i];
        assert(views(row@) == t[i as int]);
        if row.len() > 0 {
            assert forall|k: int| 0 <= k < row@.len() implies field_ok(#[trigger] row@[k]@, config.max_field_width) by {
                assert(t[i as int][k] == row@[k]@);
            }
            let key = process_field(row[0].as_str(), config);
            let values = process_fields(row, 1, config);
            let joined = crate::text::join_strings(&values, config.separator.as_str());
            push_str(&mut result, key.as_str());
            push_str(&mut result, ": ");
            push_str(&mut result, joined.as_str());
            if i < data.rows.len() - 1 {
                push_char(&mut result, '\n');
            }
        }
        i = i + 1;
        assert(result@ =~= pairs_from(t, config@, st, i as int));
    }
    Ok(result)
}

/// The columns of `t` as rows: row `c` holds cell `c` of every row (empty where a row is
/// shorter).
pub open spec fn transpose_spec(t: Seq<Seq<Seq<char>>>) -> Seq<Seq<Seq<char>>> {
    Seq::new(
        column_count_of(t),
        |c: int| Seq::new(t.len(), |r: int| if c < t[r].len() { t[r][c] } else { Seq::empty() }),
    )
}

/// The columns written as rows (see `transpose_spec` and `single_line_spec`), after checking
/// that every row is as long as the first.
pub fn render_transposed_single_line(data: &TableData, config: &SingleLineConfig) -> (res: Result<String, String>)
    requires
        fields_ok(table_view(data.rows@), config.max_field_width),
    ensures
        valid_or_msg(table_view(data.rows@), res),
        first_bad_row(table_view(data.rows@), 0, column_count_of(table_view(data.rows@))) is None ==> (res matches Ok(s)
            && s@ == single_line_spec(transpose_spec(table_view(data.rows@)), config@)),
{
    let ghost t = table_view(data.rows@);
    match validate_table_data(data) {
        Ok(_) => {},
        Err(e) => {
            return Err(e);
        },
    }
    if data.is_empty() {
        return Ok(String::new());
    }
    let n = data.column_count();
    let mut transposed: Vec<Row> = Vec::new();
    let mut c: usize = 0;
    while c < n
        invariant
            c <= n,
            n == column_count_of(t),
            t == table_view(data.rows@),
            table_view(transposed@) == transpose_spec(t).take(c as int),
        decreases n - c,
    {
        let mut col: Row = Vec::new();
        let mut r: usize = 0;
        while r < data.rows.len()
            invariant
                r <= data.rows@.len(),
                c < n,
                n == column_count_of(t),
                t == table_view(data.rows@),
                views(col@) == transpose_spec(t)[c as int].take(r as int),
            decreases data.rows.len() - r,
        {
            let ghost before = views(col@);
            let cell = if c < data.rows[r].len() {
                owned(data.rows[r][c].as_str())
            } else {
                String::new()
            };
            col.push(cell);
            assert(views(col@) =~= before.push(cell@));
            r = r + 1;
            assert(views(col@) =~= transpose_spec(t)[c as int].take(r as int));
        }
        assert(transpose_spec(t)[c as int].take(r as int) =~= transpose_spec(t)[c as int]);
        let ghost before = table_view(transposed@);
        let ghost cv = views(col@);
        transposed.push(col);
        assert(table_view(transposed@) =~= before.push(cv));
        c = c + 1;
        assert(table_view(transposed@) =~= transpose_spec(t).take(c as int));
    }
    assert(transpose_spec(t).take(c as int) =~= transpose_spec(t));
    let tt = TableData::new(transposed);
    let ghost tv = transpose_spec(t);
    assert(fields_ok(tv, config.max_field_width)) by {
        assert forall|r: int, k: int| 0 <= r < tv.len() && 0 <= k < tv[r].len() implies field_ok(
            #[trigger] tv[r][k],
            config.max_field_width,
        ) by {
            if r < t[k].len() {
                assert(tv[r][k] == t[k][r]);
            } else {
                assert(tv[r][k] =~= Seq::<char>::empty());
            }
        }
    }
    assert(first_bad_row(tv, 0, column_count_of(tv)) is None) by {
        lemma_square_no_bad_row(tv, 0);
    }
    render_single_line_table(&tt, config)
}

/// A table whose rows are all as long as the first has no bad row.
proof fn lemma_square_no_bad_row(t: Seq<Seq<Seq<char>>>, i: int)
    requires
        0 <= i,
        forall|r: int| 0 <= r < t.len() ==> #[trigger] t[r].len() == column_count_of(t),
    ensures
        first_bad_row(t, i, column_count_of(t)) is None,
    decreases t.len() - i,
{
    if i < t.len() {
        lemma_square_no_bad_row(t, i + 1);
    }
}


proof fn lemma_rows_all_as_long(t: Seq<Seq<Seq<char>>>, i: int, m: nat)
    requires
        0 <= i,
        forall|r: int| i <= r < t.len() ==> #[trigger] t[r].len() == m,
    ensures
        first_bad_row(t, i, m) is None,
    decreases t.len() - i,
{
    if i < t.len() {
        lemma_rows_all_as_long(t, i + 1, m);
    }
}

/// The columns of a table whose rows are all as long, taken as rows, make a table whose rows
/// are all as long, and whose fields can be cut where the first table's can; so
/// `render_transposed_single_line` writes what `render_single_line_table` writes for that
/// table. Taking the columns again gives the first table back, when it has a column.
pub proof fn law_transpose(t: Seq<Seq<Seq<char>>>, max: Option<usize>)
    requires
        first_bad_row(t, 0, column_count_of(t)) is None,
    ensures
        first_bad_row(transpose_spec(t), 0, column_count_of(transpose_spec(t))) is None,
        fields_ok(t, max) ==> fields_ok(transpose_spec(t), max),
        column_count_of(t) > 0 ==> transpose_spec(transpose_spec(t)) == t,
{
    let m = column_count_of(t);
    let tt = transpose_spec(t);
    lemma_no_bad_row(t, 0, m);
    lemma_rows_all_as_long(tt, 0, column_count_of(tt));
    if fields_ok(t, max) {
        assert forall|r: int, c: int| 0 <= r < tt.len() && 0 <= c < tt[r].len() implies field_ok(
            #[trigger] tt[r][c],
            max,
        ) by {
            assert(tt[r][c] == t[c][r]);
        }
    }
    if m > 0 {
        let back = transpose_spec(tt);
        assert(column_count_of(tt) == t.len());
        assert forall|r: int| 0 <= r < t.len() implies #[trigger] back[r] == t[r] by {
            assert(back[r] =~= t[r]);
        }
        assert(back =~= t);
    }
}

} // verus!

verus! {

/// Statistics of a table's cells, in whole numbers.
pub struct SummaryRenderer;

/// The whole-number statistics of a table: its rows, the columns of its first row, the cells
/// of that grid, the empty cells and the bytes of all cells.
pub struct TableSummary {
    pub row_count: usize,
    pub column_count: usize,
    pub total_cells: usize,
    pub empty_cells: usize,
    pub total_length: usize,
}

/// The whole-number statistics of one column: the longest and shortest cell (in bytes), the
/// bytes of all its cells, its cells and its empty cells.
pub struct ColumnSummary {
    pub max_len: usize,
    pub min_len: usize,
    pub total_length: usize,
    pub cell_count: usize,
    pub empty_count: usize,
}

/// The cells of a table, row by row.
pub open spec fn cells_of(t: Seq<Seq<Seq<char>>>) -> Seq<Seq<char>>
    decreases t.len(),
{
    if t.len() == 0 {
        Seq::empty()
    } else {
        cells_of(t.drop_last()) + t.last()
    }
}

/// The cells in column `k`, from the rows that reach it.
pub open spec fn column_cells(t: Seq<Seq<Seq<char>>>, k: int) -> Seq<Seq<char>>
    decreases t.len(),
{
    if t.len() == 0 {
        Seq::empty()
    } else if k < t.last().len() {
        column_cells(t.drop_last(), k).push(t.last()[k])
    } else {
        column_cells(t.drop_last(), k)
    }
}

/// The number of empty cells.
pub open spec fn empty_count(cs: Seq<Seq<char>>) -> nat
    decreases cs.len(),
{
    if cs.len() == 0 {
        0
    } else {
        empty_count(cs.drop_last()) + if cs.last().len() == 0 {
            1nat
        } else {
            0nat
        }
    }
}

/// The bytes of all cells.
pub open spec fn total_bytes(cs: Seq<Seq<char>>) -> nat
    decreases cs.len(),
{
    if cs.len() == 0 {
        0
    } else {
        total_bytes(cs.drop_last()) + byte_len(cs.last())
    }
}

/// The bytes of the longest cell, 0 for none.
pub open spec fn longest(cs: Seq<Seq<char>>) -> nat
    decreases cs.len(),
{
    if cs.len() == 0 {
        0
    } else if byte_len(cs.last()) > longest(cs.drop_last()) {
        byte_len(cs.last())
    } else {
        longest(cs.drop_last())
    }
}

/// The bytes of the shortest cell, 0 for none.
pub open spec fn shortest(cs: Seq<Seq<char>>) -> nat
    decreases cs.len(),
{
    if cs.len() == 0 {
        0
    } else if cs.len() == 1 || byte_len(cs.last()) < shortest(cs.drop_last()) {
        byte_len(cs.last())
    } else {
        shortest(cs.drop_last())
    }
}

/// Whether the statistics of a list of cells fit in `usize`.
pub open spec fn stats_fit(cs: Seq<Seq<char>>) -> bool {
    total_bytes(cs) <= usize::MAX
}

proof fn lemma_bytes_bounds(cs: Seq<Seq<char>>)
    ensures
        longest(cs) <= total_bytes(cs),
        shortest(cs) <= total_bytes(cs),
        empty_count(cs) <= cs.len(),
    decreases cs.len(),
{
    if cs.len() > 0 {
        lemma_bytes_bounds(cs.drop_last());
    }
}

proof fn lemma_total_prefix(cs: Seq<Seq<char>>, i: int)
    requires
        0 <= i <= cs.len(),
    ensures
        total_bytes(cs.take(i)) <= total_bytes(cs),
    decreases cs.len() - i,
{
    if i < cs.len() {
        lemma_total_prefix(cs, i + 1);
        assert(cs.take(i + 1).drop_last() =~= cs.take(i));
    } else {
        assert(cs.take(i) =~= cs);
    }
}

/// The statistics of a list of cells.
fn list_summary(cs: &Vec<String>) -> (res: ColumnSummary)
    requires
        stats_fit(views(cs@)),
    ensures
        res.max_len == longest(views(cs@)),
        res.min_len == shortest(views(cs@)),
        res.total_length == total_bytes(views(cs@)),
        res.cell_count == cs@.len(),
        res.empty_count == empty_count(views(cs@)),
{
    let ghost v = views(cs@);
    let mut max_len: usize = 0;
    let mut min_len: usize = 0;
    let mut total: usize = 0;
    let mut empty: usize = 0;
    let mut i: usize = 0;
    while i < cs.len()
        invariant
            i <= cs@.len(),
            v == views(cs@),
            stats_fit(v),
            max_len == longest(v.take(i as int)),
            min_len == shortest(v.take(i as int)),
            total == total_bytes(v.take(i as int)),
            empty == empty_count(v.take(i as int)),
            empty <= i,
        decreases cs@.len() - i,
    {
        proof {
            lemma_total_prefix(v, i + 1);
            lemma_bytes_bounds(v.take(i + 1));
            assert(v.take(i + 1).drop_last() =~= v.take(i as int));
            assert(v.take(i + 1).last() == cs@[i as int]@);
        }
        let n = cs[i].as_str().as_bytes().len();
        assert(n == byte_len(v[i as int]));
        if n > max_len {
            max_len = n;
        }
        if i == 0 || n < min_len {
            min_len = n;
        }
        total = total + n;
        if crate::text::str_is_empty(cs[i].as_str()) {
            empty = empty + 1;
        }
        i = i + 1;
    }
    assert(v.take(i as int) =~= v);
    ColumnSummary { max_len, min_len, total_length: total, cell_count: cs.len(), empty_count: empty }
}

/// The cells of a table, row by row, as new strings.
fn all_cells(data: &TableData) -> (res: Vec<String>)
    ensures
        views(res@) == cells_of(table_view(data.rows@)),
{
    let ghost t = table_view(data.rows@);
    let mut out: Vec<String> = Vec::new();
    let mut r: usize = 0;
    while r < data.rows.len()
        invariant
            r <= data.rows@.len(),
            t == table_view(data.rows@),
            views(out@) == cells_of(t.take(r as int)),
        decreases data.rows@.len() - r,
    {
        let row = &data.rows[r];
        let ghost before = views(out@);
        let mut c: usize = 0;
        while c < row.len()
            invariant
                c <= row@.len(),
                row == data.rows@[r as int],
                t == table_view(data.rows@),
                r < data.rows@.len(),
                views(out@) == before + t[r as int].take(c as int),
            decreases row@.len() - c,
        {
            let ghost prev = views(out@);
            out.push(owned(row[c].as_str()));
            assert(t[r as int] == views(row@));
            assert(views(out@) =~= prev.push(row@[c as int]@));
            assert(t[r as int].take(c + 1) =~= t[r as int].take(c as int).push(row@[c as int]@));
            assert(views(out@) =~= before + t[r as int].take(c + 1));
            c = c + 1;
        }
        assert(t[r as int].take(c as int) =~= t[r as int]);
        assert(t.take(r + 1).drop_last() =~= t.take(r as int));
        assert(t.take(r + 1).last() == t[r as int]);
        r = r + 1;
    }
    assert(t.take(r as int) =~= t);
    out
}

/// The cells of column `k`, from the rows that reach it, as new strings.
fn cells_in_column(data: &TableData, k: usize) -> (res: Vec<String>)
    ensures
        views(res@) == column_cells(table_view(data.rows@), k as int),
{
    let ghost t = table_view(data.rows@);
    let mut out: Vec<String> = Vec::new();
    let mut r: usize = 0;
    while r < data.rows.len()
        invariant
            r <= data.rows@.len(),
            t == table_view(data.rows@),
            views(out@) == column_cells(t.take(r as int), k as int),
        decreases data.rows@.len() - r,
    {
        assert(t.take(r + 1).drop_last() =~= t.take(r as int));
        let ghost before = views(out@);
        if k < data.rows[r].len() {
            out.push(owned(data.rows[r][k].as_str()));
            assert(views(out@) =~= before.push(t[r as int][k as int]));
        }
        r = r + 1;
    }
    assert(t.take(r as int) =~= t);
    out
}

impl SummaryRenderer {
    /// The whole-number statistics of a table; none for a table without rows.
    pub fn table_summary(data: &TableData) -> (res: Option<TableSummary>)
        requires
            data.rows@.len() * column_count_of(table_view(data.rows@)) <= usize::MAX,
            stats_fit(cells_of(table_view(data.rows@))),
        ensures
            res is None <==> data.rows@.len() == 0,
            res matches Some(s) ==> {
                &&& s.row_count == data.rows@.len()
                &&& s.column_count == column_count_of(table_view(data.rows@))
                &&& s.total_cells == data.rows@.len() * column_count_of(table_view(data.rows@))
                &&& s.empty_cells == empty_count(cells_of(table_view(data.rows@)))
                &&& s.total_length == total_bytes(cells_of(table_view(data.rows@)))
            },
    {
        if data.is_empty() {
            return None;
        }
        let rows = data.row_count();
        let cols = data.column_count();
        let cells = all_cells(data);
        let s = list_summary(&cells);
        Some(
            TableSummary {
                row_count: rows,
                column_count: cols,
                total_cells: rows * cols,
                empty_cells: s.empty_count,
                total_length: s.total_length,
            },
        )
    }

    /// The whole-number statistics of each column of the first row's width, from the rows
    /// that reach it; none for a table without rows.
    pub fn column_summaries(data: &TableData) -> (res: Vec<ColumnSummary>)
        requires
            forall|k: int|
                0 <= k < column_count_of(table_view(data.rows@)) ==> stats_fit(
                    #[trigger] column_cells(table_view(data.rows@), k),
                ),
        ensures
            res@.len() == column_count_of(table_view(data.rows@)),
            forall|k: int|
                0 <= k < res@.len() ==> {
                    let cs = column_cells(table_view(data.rows@), k);
                    &&& (#[trigger] res@[k]).max_len == longest(cs)
                    &&& res@[k].min_len == shortest(cs)
                    &&& res@[k].total_length == total_bytes(cs)
                    &&& res@[k].cell_count == cs.len()
                    &&& res@[k].empty_count == empty_count(cs)
                },
    {
        let ghost t = table_view(data.rows@);
        let cols = data.column_count();
        let mut out: Vec<ColumnSummary> = Vec::new();
        let mut k: usize = 0;
        while k < cols
            invariant
                k <= cols,
                cols == column_count_of(t),
                t == table_view(data.rows@),
                out@.len() == k,
                forall|k: int| 0 <= k < column_count_of(t) ==> stats_fit(#[trigger] column_cells(t, k)),
                forall|j: int|
                    0 <= j < k ==> {
                        let cs = column_cells(t, j);
                        &&& (#[trigger] out@[j]).max_len == longest(cs)
                        &&& out@[j].min_len == shortest(cs)
                        &&& out@[j].total_length == total_bytes(cs)
                        &&& out@[j].cell_count == cs.len()
                        &&& out@[j].empty_count == empty_count(cs)
                    },
            decreases cols - k,
        {
            let cells = cells_in_column(data, k);
            assert(stats_fit(column_cells(t, k as int)));
            let s = list_summary(&cells);
            out.push(s);
            k = k + 1;
        }
        out
    }
}
} // verus!
