use crate::text::{chars_of, is_control, lines, lines_of, owned, span_end, span_len, views};
use crate::types::{Row, TableError};
use crate::utils::ansi::{calculate_display_width, display_width};
use crate::utils::wrapping::escape_end;
use vstd::prelude::*;

verus! {

/// The cells of each row, as character sequences.
pub open spec fn table_view(rows: Seq<Row>) -> Seq<Seq<Seq<char>>> {
    rows.map_values(|r: Row| views(r@))
}

/// Whether `s` from index `i` on holds no control character other than line feed, tab and
/// the escape sequences `ESC [ ... letter`.
pub open spec fn ctrl_ok_from(s: Seq<char>, i: int) -> bool
    decreases s.len() - i,
{
    if i < 0 || i >= s.len() {
        true
    } else if is_control(s[i]) && s[i] != '\n' && s[i] != '\t' {
        if s[i] == '\u{1b}' && i + 1 < s.len() && s[i + 1] == '[' {
            let j = escape_end(s, i + 2);
            if j <= i || j > s.len() {
                true
            } else {
                ctrl_ok_from(s, j)
            }
        } else {
            false
        }
    } else {
        ctrl_ok_from(s, i + 1)
    }
}

/// Whether a cell's text is accepted: no control characters but line feeds, tabs and escape
/// sequences.
pub open spec fn text_ok(s: Seq<char>) -> bool {
    ctrl_ok_from(s, 0)
}

/// Whether every cell of a row is accepted.
pub open spec fn row_ok(row: Seq<Seq<char>>) -> bool {
    forall|j: int| 0 <= j < row.len() ==> text_ok(#[trigger] row[j])
}

/// Whether every cell of every row is accepted.
pub open spec fn table_ok(t: Seq<Seq<Seq<char>>>) -> bool {
    forall|i: int| 0 <= i < t.len() ==> row_ok(#[trigger] t[i])
}

/// The text unchanged, or `ControlCharacters` when it holds a control character other than a
/// line feed, a tab or an escape sequence `ESC [ ... letter`.
pub fn normalize_string(input: &str) -> (res: Result<String, TableError>)
    ensures
        text_ok(input@) ==> res == Ok::<String, TableError>(res->Ok_0) && res->Ok_0@ == input@,
        !text_ok(input@) ==> res == Err::<String, TableError>(TableError::ControlCharacters),
{
    let v = chars_of(input);
    let mut i: usize = 0;
    while i < v.len()
        invariant
            i <= v.len(),
            v@ == input@,
            ctrl_ok_from(v@, i as int) == ctrl_ok_from(v@, 0),
        decreases v.len() - i,
    {
        let ch = v[i];
        if crate::text::char_is_control(ch) && ch != '\n' && ch != '\t' {
            if ch == '\u{1b}' && i + 1 < v.len() && v[i + 1] == '[' {
                let k = span_end(&v, i + 2, Ghost(|c: char| crate::utils::wrapping::not_ascii_alpha(c)), |c: char| -> (r: bool) ensures r == crate::utils::wrapping::not_ascii_alpha(c) { crate::text::char_is_ascii_alpha(c) == false });
                let j: usize = if k < v.len() {
                    k + 1
                } else {
                    v.len()
                };
                assert(j == escape_end(v@, i + 2));
                i = j;
            } else {
                return Err(TableError::ControlCharacters);
            }
        } else {
            i = i + 1;
        }
    }
    Ok(owned(input))
}

/// A copy of the rows, or `ControlCharacters` when some cell holds a control character (see
/// `normalize_string`).
pub fn stringify_table_data(rows: &[Row]) -> (res: Result<Vec<Row>, TableError>)
    ensures
        table_ok(table_view(rows@)) ==> res is Ok && table_view(res->Ok_0@) == table_view(
            rows@,
        ),
        !table_ok(table_view(rows@)) ==> res == Err::<Vec<Row>, TableError>(
            TableError::ControlCharacters,
        ),
{
    let mut result: Vec<Row> = Vec::new();
    let mut i: usize = 0;
    while i < rows.len()
        invariant
            i <= rows.len(),
            table_view(result@) == table_view(rows@).take(i as int),
            forall|k: int| 0 <= k < i ==> row_ok(#[trigger] table_view(rows@)[k]),
        decreases rows.len() - i,
    {
        let row = &rows[i];
        let mut string_row: Row = Vec::new();
        let mut j: usize = 0;
        while j < row.len()
            invariant
                i < rows.len(),
                row == &rows@[i as int],
                j <= row.len(),
                views(string_row@) == views(row@).take(j as int),
                forall|m: int| 0 <= m < j ==> text_ok(#[trigger] views(row@)[m]),
            decreases row.len() - j,
        {
            match normalize_string(row[j].as_str()) {
                Ok(s) => {
                    assert(views(row@)[j as int] == row@[j as int]@);
                    assert(text_ok(views(row@)[j as int]));
                    assert(s@ == row@[j as int]@);
                    let ghost before = views(string_row@);
                    string_row.push(s);
                    assert(views(string_row@) =~= before.push(s@));
                    assert(views(string_row@) =~= views(row@).take(j + 1));
                },
                Err(e) => {
                    proof {
                        assert(views(row@)[j as int] == row@[j as int]@);
                        assert(table_view(rows@)[i as int] == views(row@));
                        assert(!text_ok(table_view(rows@)[i as int][j as int]));
                    }
                    return Err(e);
                },
            }
            j = j + 1;
        }
        assert(views(row@).take(j as int) =~= views(row@));
        assert(table_view(rows@)[i as int] == views(row@));
        assert(row_ok(table_view(rows@)[i as int]));
        let ghost before = table_view(result@);
        let ghost new_row = views(string_row@);
        result.push(string_row);
        assert(table_view(result@) =~= before.push(new_row));
        assert(table_view(result@) =~= table_view(rows@).take(i + 1));
        i = i + 1;
    }
    assert(table_view(rows@).take(i as int) =~= table_view(rows@));
    Ok(result)
}

/// What `validate_table_data` gives for the rows from `i` on: the first row whose length is
/// not `expected` gives `InconsistentRowLength`, the first with a refused cell
/// `ControlCharacters`.
pub open spec fn validate_from(t: Seq<Seq<Seq<char>>>, i: int, expected: nat) -> Result<
    (),
    TableError,
>
    decreases t.len() - i,
{
    if i < 0 || i >= t.len() {
        Ok(())
    } else if t[i].len() != expected {
        Err(TableError::InconsistentRowLength)
    } else if !row_ok(t[i]) {
        Err(TableError::ControlCharacters)
    } else {
        validate_from(t, i + 1, expected)
    }
}

/// What `validate_table_data` gives.
pub open spec fn validate_table_spec(t: Seq<Seq<Seq<char>>>) -> Result<(), TableError> {
    if t.len() == 0 {
        Ok(())
    } else {
        validate_from(t, 0, t[0].len())
    }
}

/// Checks that all rows are as long as the first and that no cell holds a refused control
/// character; the first offending row decides the error.
pub fn validate_table_data(rows: &[Row]) -> (res: Result<(), TableError>)
    ensures
        res == validate_table_spec(table_view(rows@)),
{
    if rows.len() == 0 {
        return Ok(());
    }
    let expected = rows[0].len();
    let ghost t = table_view(rows@);
    let mut i: usize = 0;
    while i < rows.len()
        invariant
            i <= rows.len(),
            t == table_view(rows@),
            rows.len() > 0,
            expected == t[0].len(),
            validate_from(t, i as int, expected as nat) == validate_table_spec(t),
        decreases rows.len() - i,
    {
        let row = &rows[i];
        assert(t[i as int] == views(row@));
        if row.len() != expected {
            return Err(TableError::InconsistentRowLength);
        }
        let mut j: usize = 0;
        while j < row.len()
            invariant
                i < rows.len(),
                row == &rows@[i as int],
                t == table_view(rows@),
                t[i as int] == views(row@),
                row.len() == expected,
                expected == t[0].len(),
                validate_from(t, i as int, expected as nat) == validate_table_spec(t),
                j <= row.len(),
                forall|m: int| 0 <= m < j ==> text_ok(#[trigger] views(row@)[m]),
            decreases row.len() - j,
        {
            match normalize_string(row[j].as_str()) {
                Ok(_) => {
                    assert(views(row@)[j as int] == row@[j as int]@);
                },
                Err(e) => {
                    proof {
                        assert(views(row@)[j as int] == row@[j as int]@);
                        assert(!text_ok(t[i as int][j as int]));
                    }
                    return Err(e);
                },
            }
            j = j + 1;
        }
        assert(row_ok(t[i as int]));
        i = i + 1;
    }
    Ok(())
}

/// The widest of `lines`, in display columns (0 for none).
pub open spec fn max_line_width(lines: Seq<Seq<char>>) -> nat
    decreases lines.len(),
{
    if lines.len() == 0 {
        0
    } else {
        let rest = max_line_width(lines.drop_last());
        let w = display_width(lines.last());
        if w > rest {
            w
        } else {
            rest
        }
    }
}

/// The display width of a cell: that of its widest line.
pub open spec fn cell_width(cell: Seq<char>) -> nat {
    max_line_width(lines_of(cell))
}

/// The widest cell in column `c` among the first `n` rows.
pub open spec fn column_max(t: Seq<Seq<Seq<char>>>, c: int, n: int) -> nat
    decreases n,
{
    if n <= 0 {
        0
    } else {
        let rest = column_max(t, c, n - 1);
        let w = if c < t[n - 1].len() {
            cell_width(t[n - 1][c])
        } else {
            0
        };
        if w > rest {
            w
        } else {
            rest
        }
    }
}

/// For each column of the first row, its widest cell over all rows.
pub open spec fn max_column_widths(t: Seq<Seq<Seq<char>>>) -> Seq<nat> {
    if t.len() == 0 {
        Seq::empty()
    } else {
        Seq::new(t[0].len(), |c: int| column_max(t, c, t.len() as int))
    }
}

/// No row is longer than the first.
pub open spec fn rows_fit_first(t: Seq<Seq<Seq<char>>>) -> bool {
    forall|i: int| 0 <= i < t.len() ==> #[trigger] t[i].len() <= t[0].len()
}

/// The display width of a cell's widest line.
pub fn max_cell_width(cell: &str) -> (res: usize)
    ensures
        res == cell_width(cell@),
{
    let ls = lines(cell);
    let mut best: usize = 0;
    let mut k: usize = 0;
    while k < ls.len()
        invariant
            k <= ls.len(),
            views(ls@) == lines_of(cell@),
            best == max_line_width(views(ls@).take(k as int)),
        decreases ls.len() - k,
    {
        let w = calculate_display_width(ls[k].as_str());
        assert(views(ls@).take(k + 1).drop_last() =~= views(ls@).take(k as int));
        if w > best {
            best = w;
        }
        k = k + 1;
    }
    assert(views(ls@).take(k as int) =~= views(ls@));
    best
}

/// For each column, the display width of its widest cell line. Every row must be at most as
/// long as the first.
pub fn calculate_maximum_column_widths(rows: &[Row]) -> (res: Vec<usize>)
    requires
        rows_fit_first(table_view(rows@)),
    ensures
        res@.len() == max_column_widths(table_view(rows@)).len(),
        forall|c: int| 0 <= c < res@.len() ==> res@[c] == #[trigger] max_column_widths(
            table_view(rows@),
        )[c],
{
    let ghost t = table_view(rows@);
    if rows.len() == 0 {
        return Vec::new();
    }
    let column_count = rows[0].len();
    let mut max_widths: Vec<usize> = Vec::new();
    let mut c: usize = 0;
    while c < column_count
        invariant
            c <= column_count,
            max_widths@.len() == c,
            forall|k: int| 0 <= k < c ==> max_widths@[k] == 0,
        decreases column_count - c,
    {
        max_widths.push(0);
        c = c + 1;
    }
    let mut i: usize = 0;
    while i < rows.len()
        invariant
            i <= rows.len(),
            rows.len() > 0,
            t == table_view(rows@),
            rows_fit_first(t),
            column_count == t[0].len(),
            max_widths@.len() == column_count,
            forall|k: int| 0 <= k < column_count ==> max_widths@[k] == column_max(t, k, i as int),
        decreases rows.len() - i,
    {
        let row = &rows[i];
        assert(t[i as int] == views(row@));
        assert(t[i as int].len() <= column_count);
        let ghost prev = max_widths@;
        let mut col: usize = 0;
        while col < row.len()
            invariant
                i < rows.len(),
                row == &rows@[i as int],
                t == table_view(rows@),
                t[i as int] == views(row@),
                row.len() <= column_count,
                col <= row.len(),
                max_widths@.len() == column_count,
                forall|k: int| 0 <= k < column_count ==> prev[k] == column_max(t, k, i as int),
                forall|k: int|
                    0 <= k < col ==> max_widths@[k] == column_max(t, k, i + 1),
                forall|k: int| col <= k < column_count ==> max_widths@[k] == prev[k],
            decreases row.len() - col,
        {
            let w = max_cell_width(row[col].as_str());
            assert(views(row@)[col as int] == row@[col as int]@);
            assert(t[i as int][col as int] == row@[col as int]@);
            assert(column_max(t, col as int, i + 1) == if w > prev[col as int] {
                w as nat
            } else {
                prev[col as int] as nat
            });
            if w > max_widths[col] {
                max_widths.set(col, w);
            }
            col = col + 1;
        }
        assert forall|k: int| 0 <= k < column_count implies max_widths@[k] == column_max(
            t,
            k,
            i + 1,
        ) by {
            if k >= row.len() {
                assert(column_max(t, k, i + 1) == column_max(t, k, i as int));
            }
        }
        i = i + 1;
    }
    max_widths
}

/// The sum of `s`.
pub open spec fn seq_sum(s: Seq<usize>) -> nat
    decreases s.len(),
{
    if s.len() == 0 {
        0
    } else {
        seq_sum(s.drop_last()) + s.last() as nat
    }
}

/// Where group `k` starts when `sizes` cut an array of length `len` into groups, each cut
/// held at the end of the array.
pub open spec fn group_start(len: nat, sizes: Seq<usize>, k: int) -> nat
    decreases k,
{
    if k <= 0 {
        0
    } else {
        let prev = group_start(len, sizes, k - 1);
        if prev + sizes[k - 1] < len {
            (prev + sizes[k - 1]) as nat
        } else {
            len
        }
    }
}

proof fn lemma_group_start_bounds(len: nat, sizes: Seq<usize>, k: int)
    ensures
        group_start(len, sizes, k) <= len,
        k > 0 ==> group_start(len, sizes, k - 1) <= group_start(len, sizes, k),
    decreases k,
{
    if k > 0 {
        lemma_group_start_bounds(len, sizes, k - 1);
    }
}

/// The array cut into consecutive groups of the given sizes, the last groups shortened (or
/// empty) where the array runs out.
pub fn group_by_sizes<T: Clone>(array: &[T], sizes: &[usize]) -> (res: Vec<Vec<T>>)
    requires
        forall|k: int|
            0 <= k < sizes@.len() ==> group_start(array@.len(), sizes@, k) + #[trigger] sizes@[k]
                <= usize::MAX,
    ensures
        res@.len() == sizes@.len(),
        forall|k: int|
            0 <= k < res@.len() ==> (#[trigger] res@[k])@.len() == group_start(
                array@.len(),
                sizes@,
                k + 1,
            ) - group_start(array@.len(), sizes@, k),
        forall|k: int, j: int|
            0 <= k < res@.len() && 0 <= j < res@[k]@.len() ==> cloned(
                array@[group_start(array@.len(), sizes@, k) + j],
                #[trigger] res@[k]@[j],
            ),
{
    let mut result: Vec<Vec<T>> = Vec::new();
    let mut start: usize = 0;
    let mut k: usize = 0;
    while k < sizes.len()
        invariant
            k <= sizes.len(),
            result@.len() == k,
            start == group_start(array@.len(), sizes@, k as int),
            forall|m: int|
                0 <= m < sizes@.len() ==> group_start(array@.len(), sizes@, m)
                    + #[trigger] sizes@[m] <= usize::MAX,
            forall|m: int|
                0 <= m < k ==> (#[trigger] result@[m])@.len() == group_start(
                    array@.len(),
                    sizes@,
                    m + 1,
                ) - group_start(array@.len(), sizes@, m),
            forall|m: int, j: int|
                0 <= m < k && 0 <= j < result@[m]@.len() ==> cloned(
                    array@[group_start(array@.len(), sizes@, m) + j],
                    #[trigger] result@[m]@[j],
                ),
        decreases sizes.len() - k,
    {
        proof {
            lemma_group_start_bounds(array@.len(), sizes@, k + 1);
        }
        let size = sizes[k];
        let end: usize = if start + size < array.len() {
            start + size
        } else {
            array.len()
        };
        let mut group: Vec<T> = Vec::new();
        let mut j: usize = start;
        while j < end
            invariant
                start <= j <= end <= array.len(),
                group@.len() == j - start,
                forall|m: int| 0 <= m < group@.len() ==> cloned(array@[start + m], #[trigger] group@[m]),
            decreases end - j,
        {
            group.push(array[j].clone());
            j = j + 1;
        }
        result.push(group);
        start = end;
        k = k + 1;
    }
    result
}

/// The groups one after another.
pub fn flatten<T: Clone>(array: &[Vec<T>]) -> (res: Vec<T>)
    ensures
        res@.len() == array@.map_values(|v: Vec<T>| v@).flatten().len(),
        forall|k: int|
            0 <= k < res@.len() ==> cloned(
                array@.map_values(|v: Vec<T>| v@).flatten()[k],
                #[trigger] res@[k],
            ),
{
    let ghost groups = array@.map_values(|v: Vec<T>| v@);
    let mut result: Vec<T> = Vec::new();
    let mut i: usize = 0;
    while i < array.len()
        invariant
            i <= array.len(),
            groups == array@.map_values(|v: Vec<T>| v@),
            result@.len() == groups.take(i as int).flatten().len(),
            forall|k: int|
                0 <= k < result@.len() ==> cloned(
                    groups.take(i as int).flatten()[k],
                    #[trigger] result@[k],
                ),
        decreases array.len() - i,
    {
        let v = &array[i];
        proof {
            assert(groups.take(i + 1) =~= groups.take(i as int).push(v@));
            groups.take(i as int).lemma_flatten_push(v@);
        }
        let ghost prefix = groups.take(i as int).flatten();
        let mut j: usize = 0;
        while j < v.len()
            invariant
                j <= v.len(),
                result@.len() == prefix.len() + j,
                forall|k: int|
                    0 <= k < result@.len() ==> cloned(
                        (prefix + v@)[k],
                        #[trigger] result@[k],
                    ),
            decreases v.len() - j,
        {
            result.push(v[j].clone());
            j = j + 1;
        }
        assert(groups.take(i + 1).flatten() == prefix + v@);
        i = i + 1;
    }
    assert(groups.take(i as int) =~= groups);
    result
}

/// The sum of the array; it must fit in `usize`.
pub fn sum_array(array: &[usize]) -> (res: usize)
    requires
        seq_sum(array@) <= usize::MAX,
    ensures
        res == seq_sum(array@),
{
    let mut total: usize = 0;
    let mut i: usize = 0;
    while i < array.len()
        invariant
            i <= array.len(),
            seq_sum(array@) <= usize::MAX,
            total == seq_sum(array@.take(i as int)),
        decreases array.len() - i,
    {
        proof {
            lemma_seq_sum_prefix(array@, i + 1);
            assert(array@.take(i + 1).drop_last() =~= array@.take(i as int));
        }
        total = total + array[i];
        i = i + 1;
    }
    assert(array@.take(i as int) =~= array@);
    total
}

proof fn lemma_seq_sum_prefix(s: Seq<usize>, k: int)
    requires
        0 <= k <= s.len(),
    ensures
        seq_sum(s.take(k)) <= seq_sum(s),
    decreases s.len() - k,
{
    if k < s.len() {
        lemma_seq_sum_prefix(s, k + 1);
        assert(s.take(k + 1).drop_last() =~= s.take(k));
    } else {
        assert(s.take(k) =~= s);
    }
}

/// The integers from `start` up to, not including, `end`.
pub fn sequence(start: usize, end: usize) -> (res: Vec<usize>)
    ensures
        res@.len() == if start < end {
            end - start
        } else {
            0
        },
        forall|k: int| 0 <= k < res@.len() ==> res@[k] == start + k,
{
    let mut result: Vec<usize> = Vec::new();
    let mut i: usize = start;
    while i < end
        invariant
            start <= i <= end || (start >= end && i == start),
            result@.len() == i - start,
            forall|k: int| 0 <= k < result@.len() ==> result@[k] == start + k,
        decreases end - i,
    {
        result.push(i);
        i = i + 1;
    }
    result
}

/// `length` parts of `sum` as even as can be, the larger ones first.
pub open spec fn distribute_spec(sum: nat, length: nat) -> Seq<nat> {
    if length == 0 {
        Seq::empty()
    } else {
        Seq::new(length, |i: int| sum / length + if i < sum % length { 1nat } else { 0nat })
    }
}

/// `sum` split into `length` parts that differ by at most one, the larger ones first.
pub fn distribute_unevenly(sum: usize, length: usize) -> (res: Vec<usize>)
    ensures
        res@.len() == distribute_spec(sum as nat, length as nat).len(),
        forall|k: int| 0 <= k < res@.len() ==> res@[k] == #[trigger] distribute_spec(
            sum as nat,
            length as nat,
        )[k],
{
    if length == 0 {
        return Vec::new();
    }
    let base: usize = sum / length;
    let remainder: usize = sum % length;
    proof {
        if remainder > 0 {
            assert(base < usize::MAX) by (nonlinear_arith)
                requires
                    base == sum / length,
                    remainder == sum % length,
                    remainder > 0,
                    length > 0,
                    sum <= usize::MAX,
            ;
        }
    }
    let mut result: Vec<usize> = Vec::new();
    let mut i: usize = 0;
    while i < length
        invariant
            i <= length,
            length > 0,
            base == sum / length,
            remainder == sum % length,
            remainder > 0 ==> base < usize::MAX,
            result@.len() == i,
            forall|k: int| 0 <= k < i ==> result@[k] == #[trigger] distribute_spec(
                sum as nat,
                length as nat,
            )[k],
        decreases length - i,
    {
        let v: usize = if i < remainder {
            base + 1
        } else {
            base
        };
        result.push(v);
        i = i + 1;
    }
    result
}

/// The number of spaces at the start of `input`.
pub fn count_space_sequence(input: &str) -> (res: usize)
    ensures
        res == span_len(input@, |c: char| c == ' '),
{
    let v = chars_of(input);
    let j = span_end(&v, 0, Ghost(|c: char| c == ' '), |c: char| -> (r: bool) ensures r == (c == ' ') { c == ' ' });
    assert(v@.skip(0) =~= v@);
    j
}

/// A copy of the rows `start..end`.
pub fn copy_rows(rows: &[Row], start: usize, end: usize) -> (res: Vec<Row>)
    requires
        start <= end <= rows@.len(),
    ensures
        table_view(res@) == table_view(rows@).subrange(start as int, end as int),
{
    let mut out: Vec<Row> = Vec::new();
    let mut i: usize = start;
    while i < end
        invariant
            start <= i <= end <= rows@.len(),
            table_view(out@) == table_view(rows@).subrange(start as int, i as int),
        decreases end - i,
    {
        let row = crate::text::copy_strings(&rows[i]);
        let ghost before = table_view(out@);
        out.push(row);
        assert(table_view(out@) =~= before.push(views(row@)));
        i = i + 1;
        assert(table_view(out@) =~= table_view(rows@).subrange(start as int, i as int));
    }
    out
}


/// Where group `k` starts is the sum of the first `k` sizes, held at the end of the array.
pub proof fn lemma_group_start_sum(len: nat, sizes: Seq<usize>, k: int)
    requires
        0 <= k <= sizes.len(),
    ensures
        group_start(len, sizes, k) == if seq_sum(sizes.take(k)) < len {
            seq_sum(sizes.take(k))
        } else {
            len
        },
    decreases k,
{
    if k > 0 {
        lemma_group_start_sum(len, sizes, k - 1);
        assert(sizes.take(k).drop_last() =~= sizes.take(k - 1));
    } else {
        assert(sizes.take(0) =~= Seq::<usize>::empty());
    }
}

/// Groups cut from an array by `sizes`, put back one after another, give the array's first
/// elements, as many as the sizes add up to (all of it where they add up to more).
pub proof fn law_groups_flatten<T>(array: Seq<T>, sizes: Seq<usize>, groups: Seq<Seq<T>>)
    requires
        groups.len() == sizes.len(),
        forall|k: int|
            0 <= k < groups.len() ==> #[trigger] groups[k] == array.subrange(
                group_start(array.len(), sizes, k) as int,
                group_start(array.len(), sizes, k + 1) as int,
            ),
    ensures
        groups.flatten() == array.take(
            if seq_sum(sizes) < array.len() {
                seq_sum(sizes) as int
            } else {
                array.len() as int
            },
        ),
{
    let n = array.len();
    assert forall|k: int| 0 <= k <= groups.len() implies #[trigger] groups.take(k).flatten_alt() == array.subrange(
        0,
        group_start(n, sizes, k) as int,
    ) by {
        lemma_groups_prefix(array, sizes, groups, k);
    }
    groups.lemma_flatten_and_flatten_alt_are_equivalent();
    assert(groups.take(groups.len() as int) =~= groups);
    lemma_group_start_sum(n, sizes, sizes.len() as int);
    assert(sizes.take(sizes.len() as int) =~= sizes);
}

proof fn lemma_groups_prefix<T>(array: Seq<T>, sizes: Seq<usize>, groups: Seq<Seq<T>>, k: int)
    requires
        groups.len() == sizes.len(),
        0 <= k <= groups.len(),
        forall|j: int|
            0 <= j < groups.len() ==> #[trigger] groups[j] == array.subrange(
                group_start(array.len(), sizes, j) as int,
                group_start(array.len(), sizes, j + 1) as int,
            ),
    ensures
        groups.take(k).flatten_alt() == array.subrange(0, group_start(array.len(), sizes, k) as int),
    decreases k,
{
    let n = array.len();
    if k == 0 {
        assert(groups.take(0) =~= Seq::<Seq<T>>::empty());
        assert(array.subrange(0, 0) =~= Seq::<T>::empty());
    } else {
        lemma_groups_prefix(array, sizes, groups, k - 1);
        lemma_group_start_bounds(n, sizes, k);
        lemma_group_start_bounds(n, sizes, k - 1);
        assert(groups.take(k).drop_last() =~= groups.take(k - 1));
        assert(groups.take(k).last() == groups[k - 1]);
        assert(array.subrange(0, group_start(n, sizes, k) as int) =~= array.subrange(
            0,
            group_start(n, sizes, k - 1) as int,
        ) + array.subrange(group_start(n, sizes, k - 1) as int, group_start(n, sizes, k) as int));
    }
}


/// The widest of some lines is at least as wide as each of them, and is the width of one of
/// them (0 when there are none).
pub proof fn law_max_line_width(lines: Seq<Seq<char>>)
    ensures
        forall|k: int| 0 <= k < lines.len() ==> max_line_width(lines) >= display_width(#[trigger] lines[k]),
        lines.len() == 0 ==> max_line_width(lines) == 0,
        lines.len() > 0 ==> exists|k: int| 0 <= k < lines.len() && max_line_width(lines) == display_width(#[trigger] lines[k]),
    decreases lines.len(),
{
    if lines.len() > 0 {
        let rest = lines.drop_last();
        law_max_line_width(rest);
        assert forall|k: int| 0 <= k < lines.len() implies max_line_width(lines) >= display_width(#[trigger] lines[k]) by {
            if k < rest.len() {
                assert(lines[k] == rest[k]);
            }
        }
        if display_width(lines.last()) > max_line_width(rest) || rest.len() == 0 {
            assert(max_line_width(lines) == display_width(lines[lines.len() - 1]));
        } else {
            let k = choose|k: int| 0 <= k < rest.len() && max_line_width(rest) == display_width(#[trigger] rest[k]);
            assert(lines[k] == rest[k]);
        }
    }
}

/// The width found for column `c` is at least the display width of every line of every cell
/// in that column, and is the width of one of those lines (or 0 when all are empty).
pub proof fn law_column_width(t: Seq<Seq<Seq<char>>>, c: int, n: int)
    requires
        0 <= c,
        0 <= n <= t.len(),
    ensures
        forall|i: int, k: int|
            0 <= i < n && c < t[i].len() && 0 <= k < lines_of(t[i][c]).len() ==> column_max(t, c, n) >= display_width(
                #[trigger] lines_of(t[i][c])[k],
            ),
        column_max(t, c, n) == 0 || exists|i: int, k: int|
            0 <= i < n && 0 <= c < t[i].len() && 0 <= k < lines_of(t[i][c]).len() && column_max(t, c, n) == display_width(
                #[trigger] lines_of(t[i][c])[k],
            ),
    decreases n,
{
    if n > 0 {
        law_column_width(t, c, n - 1);
        let i0 = n - 1;
        if 0 <= c < t[i0].len() {
            law_max_line_width(lines_of(t[i0][c]));
        }
        let w = if c < t[i0].len() { cell_width(t[i0][c]) } else { 0 };
        assert forall|i: int, k: int|
            0 <= i < n && c < t[i].len() && 0 <= k < lines_of(t[i][c]).len() implies column_max(t, c, n) >= display_width(
                #[trigger] lines_of(t[i][c])[k],
            ) by {
        }
        if column_max(t, c, n) != 0 {
            if w > column_max(t, c, n - 1) {
                let lw = lines_of(t[i0][c]);
                assert(lw.len() > 0);
                let k = choose|k: int| 0 <= k < lw.len() && max_line_width(lw) == display_width(#[trigger] lw[k]);
                assert(column_max(t, c, n) == display_width(lines_of(t[i0][c])[k]));
            } else {
                let (i, k) = choose|i: int, k: int|
                    0 <= i < n - 1 && 0 <= c < t[i].len() && 0 <= k < lines_of(t[i][c]).len() && column_max(t, c, n - 1)
                        == display_width(#[trigger] lines_of(t[i][c])[k]);
                assert(column_max(t, c, n) == display_width(lines_of(t[i][c])[k]));
            }
        }
    }
}

proof fn lemma_plain_controls_from(s: Seq<char>, i: int)
    requires
        0 <= i,
        forall|k: int| 0 <= k < s.len() ==> !is_control(#[trigger] s[k]) || s[k] == '\n' || s[k] == '\t',
    ensures
        ctrl_ok_from(s, i),
    decreases s.len() - i,
{
    if i < s.len() {
        lemma_plain_controls_from(s, i + 1);
    }
}

/// A text whose only control characters are line feeds and tabs is accepted.
pub proof fn law_tabs_and_line_feeds_accepted(s: Seq<char>)
    requires
        forall|k: int| 0 <= k < s.len() ==> !is_control(#[trigger] s[k]) || s[k] == '\n' || s[k] == '\t',
    ensures
        text_ok(s),
{
    lemma_plain_controls_from(s, 0);
}

/// A table whose cells hold no control characters but line feeds and tabs is accepted.
pub proof fn law_plain_table_accepted(t: Seq<Seq<Seq<char>>>)
    requires
        forall|i: int, j: int, k: int|
            0 <= i < t.len() && 0 <= j < t[i].len() && 0 <= k < t[i][j].len() ==> !is_control(#[trigger] t[i][j][k])
                || t[i][j][k] == '\n' || t[i][j][k] == '\t',
    ensures
        table_ok(t),
{
    assert forall|i: int| 0 <= i < t.len() implies row_ok(#[trigger] t[i]) by {
        assert forall|j: int| 0 <= j < t[i].len() implies text_ok(#[trigger] t[i][j]) by {
            law_tabs_and_line_feeds_accepted(t[i][j]);
        }
    }
}

/// A text without escape characters is refused when it holds a control character other than
/// a line feed or a tab.
pub proof fn law_other_controls_refused(s: Seq<char>, i: int, k: int)
    requires
        0 <= i <= k < s.len(),
        forall|j: int| 0 <= j < s.len() ==> #[trigger] s[j] != '\u{1b}',
        is_control(s[k]) && s[k] != '\n' && s[k] != '\t',
    ensures
        !ctrl_ok_from(s, i),
        i == 0 ==> !text_ok(s),
    decreases k - i,
{
    if i < k {
        law_other_controls_refused(s, i + 1, k);
        assert(s[i] != '\u{1b}');
    }
}
} // verus!
