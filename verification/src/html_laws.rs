use crate::html::{
    attrs_spec, cells_spec, default_html, escape_char, escape_spec, opening_spec, render_spec, row_spec, rows_spec,
    style_attr_spec, style_parts, tag_start_spec, thead_spec,
};
use crate::html::{html_rows, cell_content, parse_start, parse_step, parse_upto, unescape_spec, ParseState};
use crate::text::{char_index_before, char_index_from, is_whitespace, replace_spec, split_pieces, trim_spec, trim_start_ws, contains_spec, find_from, occurs_at, join_seq, lemma_span_len, lines_of, not_newline, span_len, strip_cr};
use crate::wrapping::trim_end_ws;
use vstd::prelude::*;

verus! {

/// Whether a text holds no line feed.
pub open spec fn one_line(a: Seq<char>) -> bool {
    forall|k: int| 0 <= k < a.len() ==> a[k] != '\n'
}

/// Lines, each followed by a line feed.
pub open spec fn nl_join(ls: Seq<Seq<char>>) -> Seq<char>
    decreases ls.len(),
{
    if ls.len() == 0 {
        Seq::empty()
    } else {
        ls[0] + "\n"@ + nl_join(ls.drop_first())
    }
}

proof fn lemma_lines_cons(a: Seq<char>, y: Seq<char>)
    requires
        one_line(a),
    ensures
        lines_of(a + "\n"@ + y) == seq![strip_cr(a)] + lines_of(y),
{
    reveal_strlit("\n");
    let s = a + "\n"@ + y;
    let f = |c: char| not_newline(c);
    assert forall|k: int| 0 <= k < a.len() implies f(#[trigger] s[k]) by {
        assert(s[k] == a[k]);
    }
    assert(s[a.len() as int] == '\n');
    lemma_span_len(s, f, 0, a.len() as int);
    assert(s.skip(0) =~= s);
    assert(s.take(a.len() as int) =~= a);
    assert(s.skip(a.len() + 1int) =~= y);
}


/// Whether a line neither holds a line feed nor ends with a carriage return.
pub open spec fn plain_line(a: Seq<char>) -> bool {
    one_line(a) && (a.len() == 0 || a.last() != '\r')
}

proof fn lemma_lines_join(ls: Seq<Seq<char>>)
    requires
        forall|k: int| 0 <= k < ls.len() ==> plain_line(#[trigger] ls[k]),
    ensures
        lines_of(nl_join(ls)) == ls,
    decreases ls.len(),
{
    if ls.len() > 0 {
        let rest = ls.drop_first();
        assert forall|k: int| 0 <= k < rest.len() implies plain_line(#[trigger] rest[k]) by {
            assert(rest[k] == ls[k + 1]);
        }
        lemma_lines_join(rest);
        assert(plain_line(ls[0]));
        lemma_lines_cons(ls[0], nl_join(rest));
        assert(strip_cr(ls[0]) == ls[0]);
        assert(seq![ls[0]] + rest =~= ls);
    } else {
        assert(lines_of(Seq::<char>::empty()) =~= Seq::<Seq<char>>::empty());
    }
}

proof fn lemma_nl_join_add(a: Seq<Seq<char>>, b: Seq<Seq<char>>)
    ensures
        nl_join(a + b) == nl_join(a) + nl_join(b),
    decreases a.len(),
{
    if a.len() == 0 {
        assert(a + b =~= b);
        assert(nl_join(a) + nl_join(b) =~= nl_join(b));
    } else {
        lemma_nl_join_add(a.drop_first(), b);
        assert((a + b).drop_first() =~= a.drop_first() + b);
        assert((a + b)[0] == a[0]);
        assert(nl_join(a + b) =~= nl_join(a) + nl_join(b));
    }
}

proof fn lemma_nl_join_one(x: Seq<char>)
    ensures
        nl_join(seq![x]) == x + "\n"@,
{
    assert(seq![x].drop_first() =~= Seq::<Seq<char>>::empty());
    assert(nl_join(Seq::<Seq<char>>::empty()) =~= Seq::<char>::empty());
    assert(seq![x][0] == x);
    assert(x + "\n"@ + Seq::<char>::empty() =~= x + "\n"@);
}

/// Whether a cell holds none of the characters that HTML escapes, and no line feed.
pub open spec fn html_plain(c: Seq<char>) -> bool {
    forall|k: int|
        0 <= k < c.len() ==> #[trigger] c[k] != '\n' && c[k] != '<' && c[k] != '>' && c[k] != '&' && c[k] != '"'
            && c[k] != '\''
}

proof fn lemma_escape_plain(c: Seq<char>)
    requires
        html_plain(c),
    ensures
        escape_spec(c) == c,
    decreases c.len(),
{
    if c.len() > 0 {
        assert forall|k: int| 0 <= k < c.drop_last().len() implies #[trigger] c.drop_last()[k] != '\n' && c.drop_last()[k]
            != '<' && c.drop_last()[k] != '>' && c.drop_last()[k] != '&' && c.drop_last()[k] != '"' && c.drop_last()[k]
            != '\'' by {
            assert(c.drop_last()[k] == c[k]);
        }
        lemma_escape_plain(c.drop_last());
        assert(c[c.len() - 1] == c.last());
        assert(escape_char(c.last()) == seq![c.last()]);
        assert(c.drop_last() + seq![c.last()] =~= c);
    }
}

/// The lines of a row's cells, each between `open` and `close`.
pub open spec fn cell_lines(row: Seq<Seq<char>>, open: Seq<char>, close: Seq<char>) -> Seq<Seq<char>> {
    Seq::new(row.len(), |k: int| open + escape_spec(row[k]) + close)
}

proof fn lemma_cells_join(row: Seq<Seq<char>>, open: Seq<char>, close: Seq<char>)
    ensures
        cells_spec(row, open, close + "\n"@) == nl_join(cell_lines(row, open, close)),
    decreases row.len(),
{
    if row.len() == 0 {
        assert(cell_lines(row, open, close) =~= Seq::<Seq<char>>::empty());
    } else {
        lemma_cells_join(row.drop_last(), open, close);
        let last = open + escape_spec(row.last()) + close;
        assert(cell_lines(row, open, close) =~= cell_lines(row.drop_last(), open, close) + seq![last]);
        lemma_nl_join_add(cell_lines(row.drop_last(), open, close), seq![last]);
        lemma_nl_join_one(last);
        assert(cells_spec(row, open, close + "\n"@) =~= nl_join(cell_lines(row, open, close)));
    }
}

/// The lines of one row: its opening tag, its cells between `open` and `close`, its closing
/// tag.
pub open spec fn row_lines(row: Seq<Seq<char>>, open: Seq<char>, close: Seq<char>) -> Seq<Seq<char>> {
    seq!["    <tr>"@] + cell_lines(row, open, close) + seq!["    </tr>"@]
}

/// The lines of the first `n` body rows.
pub open spec fn body_lines(rows: Seq<Seq<Seq<char>>>, n: int) -> Seq<Seq<char>>
    decreases n,
{
    if n <= 0 {
        Seq::empty()
    } else {
        body_lines(rows, n - 1) + row_lines(rows[n - 1], "      <td>"@, "</td>"@)
    }
}

/// The opening line of a table with the default settings.
pub open spec fn opening_line() -> Seq<char> {
    "<table"@ + " style=\""@ + "border-collapse: collapse"@ + "\""@ + ">"@
}

/// The lines of a table written with the default settings.
pub open spec fn html_lines(t: Seq<Seq<Seq<char>>>) -> Seq<Seq<char>> {
    seq![opening_line(), "  <thead>"@] + row_lines(t[0], "      <th>"@, "</th>"@) + seq!["  </thead>"@, "  <tbody>"@]
        + body_lines(t.skip(1), t.len() - 1) + seq!["  </tbody>"@, "</table>"@]
}

proof fn lemma_row_join(row: Seq<Seq<char>>, open: Seq<char>, close: Seq<char>)
    ensures
        nl_join(row_lines(row, open, close)) == "    <tr>"@ + "\n"@ + cells_spec(row, open, close + "\n"@) + "    </tr>"@ + "\n"@,
{
    lemma_cells_join(row, open, close);
    lemma_nl_join_add(seq!["    <tr>"@] + cell_lines(row, open, close), seq!["    </tr>"@]);
    lemma_nl_join_add(seq!["    <tr>"@], cell_lines(row, open, close));
    lemma_nl_join_one("    <tr>"@);
    lemma_nl_join_one("    </tr>"@);
}

proof fn lemma_body_join(rows: Seq<Seq<Seq<char>>>, n: int)
    requires
        0 <= n <= rows.len(),
    ensures
        nl_join(body_lines(rows, n)) == rows_spec(default_html(), rows, n, true),
    decreases n,
{
    if n > 0 {
        lemma_body_join(rows, n - 1);
        lemma_nl_join_add(body_lines(rows, n - 1), row_lines(rows[n - 1], "      <td>"@, "</td>"@));
        lemma_row_join(rows[n - 1], "      <td>"@, "</td>"@);
        reveal_strlit("    ");
        reveal_strlit("<tr");
        reveal_strlit(">\n");
        reveal_strlit("    <tr>");
        reveal_strlit("\n");
        reveal_strlit("  <td>");
        reveal_strlit("      <td>");
        reveal_strlit("</td>\n");
        reveal_strlit("</td>");
        reveal_strlit("</tr>\n");
        reveal_strlit("    </tr>");
        assert("    "@ + "  <td>"@ =~= "      <td>"@);
        assert("</td>\n"@ =~= "</td>"@ + "\n"@);
        assert(row_spec(default_html(), rows[n - 1], (n - 1) as nat, true) =~= nl_join(
            row_lines(rows[n - 1], "      <td>"@, "</td>"@),
        ));
    } else {
        assert(nl_join(Seq::<Seq<char>>::empty()) =~= Seq::<char>::empty());
    }
}

proof fn lemma_render_lines(t: Seq<Seq<Seq<char>>>)
    requires
        t.len() > 0,
    ensures
        render_spec(default_html(), t) == nl_join(html_lines(t)),
{
    let c = default_html();
    let rest = t.skip(1);
    let head = row_lines(t[0], "      <th>"@, "</th>"@);
    let body = body_lines(rest, rest.len() as int);
    lemma_body_join(rest, rest.len() as int);
    lemma_row_join(t[0], "      <th>"@, "</th>"@);
    let a = seq![opening_line(), "  <thead>"@];
    let b = seq!["  </thead>"@, "  <tbody>"@];
    let z = seq!["  </tbody>"@, "</table>"@];
    lemma_nl_join_add(a + head + b + body, z);
    lemma_nl_join_add(a + head + b, body);
    lemma_nl_join_add(a + head, b);
    lemma_nl_join_add(a, head);
    lemma_nl_join_add(seq![opening_line()], seq!["  <thead>"@]);
    lemma_nl_join_add(seq!["  </thead>"@], seq!["  <tbody>"@]);
    lemma_nl_join_add(seq!["  </tbody>"@], seq!["</table>"@]);
    assert(seq![opening_line()] + seq!["  <thead>"@] =~= a);
    assert(seq!["  </thead>"@] + seq!["  <tbody>"@] =~= b);
    assert(seq!["  </tbody>"@] + seq!["</table>"@] =~= z);
    lemma_nl_join_one(opening_line());
    lemma_nl_join_one("  <thead>"@);
    lemma_nl_join_one("  </thead>"@);
    lemma_nl_join_one("  <tbody>"@);
    lemma_nl_join_one("  </tbody>"@);
    lemma_nl_join_one("</table>"@);
    reveal_strlit("border-collapse: collapse");
    reveal_strlit("; ");
    assert(style_parts(c) =~= seq!["border-collapse: collapse"@]);
    assert(join_seq(style_parts(c), "; "@) == "border-collapse: collapse"@);
    assert(attrs_spec(c.custom_attributes) =~= Seq::<char>::empty());
    reveal_strlit(">\n");
    reveal_strlit(">");
    reveal_strlit("\n");
    reveal_strlit("<table");
    reveal_strlit(" style=\"");
    reveal_strlit("\"");
    assert(opening_spec(c) =~= opening_line() + "\n"@);
    reveal_strlit("  <thead>\n");
    reveal_strlit("  <thead>");
    reveal_strlit("    <tr>\n");
    reveal_strlit("    <tr>");
    reveal_strlit("</th>\n");
    reveal_strlit("</th>");
    reveal_strlit("    </tr>\n");
    reveal_strlit("    </tr>");
    reveal_strlit("  </thead>\n");
    reveal_strlit("  </thead>");
    assert("</th>\n"@ =~= "</th>"@ + "\n"@);
    assert(thead_spec(t[0]) =~= nl_join(seq!["  <thead>"@]) + nl_join(head) + nl_join(seq!["  </thead>"@]));
    reveal_strlit("  <tbody>\n");
    reveal_strlit("  <tbody>");
    reveal_strlit("  </tbody>\n");
    reveal_strlit("  </tbody>");
    reveal_strlit("</table>\n");
    reveal_strlit("</table>");
    assert(render_spec(c, t) =~= nl_join(html_lines(t)));
}

/// Reading the lines `ls` in order from state `s`.
pub open spec fn parse_run(s: ParseState, ls: Seq<Seq<char>>) -> ParseState
    decreases ls.len(),
{
    if ls.len() == 0 {
        s
    } else {
        parse_run(parse_step(s, ls[0]), ls.drop_first())
    }
}

proof fn lemma_run_add(s: ParseState, a: Seq<Seq<char>>, b: Seq<Seq<char>>)
    ensures
        parse_run(s, a + b) == parse_run(parse_run(s, a), b),
    decreases a.len(),
{
    if a.len() == 0 {
        assert(a + b =~= b);
    } else {
        assert((a + b).drop_first() =~= a.drop_first() + b);
        assert((a + b)[0] == a[0]);
        lemma_run_add(parse_step(s, a[0]), a.drop_first(), b);
    }
}

proof fn lemma_upto_run(ls: Seq<Seq<char>>, n: int)
    requires
        0 <= n <= ls.len(),
    ensures
        parse_upto(ls, n) == parse_run(parse_start(), ls.take(n)),
    decreases n,
{
    if n == 0 {
        assert(ls.take(0) =~= Seq::<Seq<char>>::empty());
    } else {
        lemma_upto_run(ls, n - 1);
        lemma_run_add(parse_start(), ls.take(n - 1), seq![ls[n - 1]]);
        assert(ls.take(n - 1) + seq![ls[n - 1]] =~= ls.take(n));
        assert(seq![ls[n - 1]].drop_first() =~= Seq::<Seq<char>>::empty());
        let r = parse_run(parse_start(), ls.take(n - 1));
        assert(seq![ls[n - 1]][0] == ls[n - 1]);
        assert(parse_run(parse_step(r, ls[n - 1]), Seq::<Seq<char>>::empty()) == parse_step(r, ls[n - 1]));
        assert(parse_run(r, seq![ls[n - 1]]) == parse_step(r, ls[n - 1]));
    }
}

proof fn lemma_find_occurs(s: Seq<char>, p: Seq<char>, i: int)
    ensures
        find_from(s, p, i) matches Some(j) ==> occurs_at(s, p, j as int),
    decreases s.len() + 1 - i,
{
    if !(i < 0 || i + p.len() > s.len()) && !occurs_at(s, p, i) {
        lemma_find_occurs(s, p, i + 1);
    }
}

proof fn lemma_find_some(s: Seq<char>, p: Seq<char>, i: int, j: int)
    requires
        0 <= i <= j,
        occurs_at(s, p, j),
    ensures
        find_from(s, p, i) is Some,
    decreases j - i,
{
    if i < j && !occurs_at(s, p, i) {
        lemma_find_some(s, p, i + 1, j);
    }
}

/// In a text whose only characters equal to the pattern's first are at `0` and at `m`, the
/// pattern occurs exactly where it starts at one of them.
proof fn lemma_contains_two(s: Seq<char>, p: Seq<char>, m: int)
    requires
        p.len() > 0,
        0 < m < s.len(),
        s[0] == p[0],
        forall|k: int| 0 < k < s.len() && k != m ==> s[k] != p[0],
    ensures
        contains_spec(s, p) <==> (occurs_at(s, p, 0) || occurs_at(s, p, m)),
{
    lemma_find_occurs(s, p, 0);
    if contains_spec(s, p) {
        let j = find_from(s, p, 0)->Some_0 as int;
        assert(s.subrange(j, j + p.len())[0] == s[j]);
    }
    if occurs_at(s, p, 0) {
        lemma_find_some(s, p, 0, 0);
    }
    if occurs_at(s, p, m) {
        lemma_find_some(s, p, 0, m);
    }
}

/// In a text whose only character equal to the pattern's first is at `0`, the pattern
/// occurs exactly where it starts there.
proof fn lemma_contains_one(s: Seq<char>, p: Seq<char>)
    requires
        p.len() > 0,
        s.len() > 0,
        s[0] == p[0],
        forall|k: int| 0 < k < s.len() ==> s[k] != p[0],
    ensures
        contains_spec(s, p) <==> occurs_at(s, p, 0),
{
    lemma_find_occurs(s, p, 0);
    if contains_spec(s, p) {
        let j = find_from(s, p, 0)->Some_0 as int;
        assert(s.subrange(j, j + p.len())[0] == s[j]);
    }
    if occurs_at(s, p, 0) {
        lemma_find_some(s, p, 0, 0);
    }
}


proof fn lemma_trim_indent(ind: Seq<char>, y: Seq<char>)
    requires
        forall|k: int| 0 <= k < ind.len() ==> ind[k] == ' ',
        y.len() > 0,
        !is_whitespace(y[0]),
        !is_whitespace(y.last()),
    ensures
        trim_spec(ind + y) == y,
    decreases ind.len(),
{
    let s = ind + y;
    assert(s.last() == y.last());
    assert(trim_end_ws(s) == s);
    if ind.len() == 0 {
        assert(s =~= y);
    } else {
        assert(s.drop_first() =~= ind.drop_first() + y);
        assert(s[0] == ' ');
        lemma_trim_indent(ind.drop_first(), y);
        assert(trim_end_ws(ind.drop_first() + y) == ind.drop_first() + y) by {
            assert((ind.drop_first() + y).last() == y.last());
        }
    }
}

/// The state inside the table between rows, with the rows read so far.
pub open spec fn table_state(rows: Seq<Seq<Seq<char>>>) -> ParseState {
    ParseState {
        rows,
        in_table: true,
        in_row: false,
        row: Seq::empty(),
        cell: Seq::empty(),
        in_cell: false,
        done: false,
    }
}

/// The state inside a row, with the rows and the row's cells read so far.
pub open spec fn row_state(rows: Seq<Seq<Seq<char>>>, row: Seq<Seq<char>>) -> ParseState {
    ParseState { in_row: true, row, ..table_state(rows) }
}

proof fn lemma_step_opening()
    ensures
        parse_step(parse_start(), opening_line()) == table_state(Seq::empty()),
{
    reveal_strlit("<table");
    reveal_strlit(" style=\"");
    reveal_strlit("border-collapse: collapse");
    reveal_strlit("\"");
    reveal_strlit(">");
    let l = opening_line();
    lemma_trim_indent(Seq::empty(), l);
    assert(Seq::<char>::empty() + l =~= l);
    assert(l.subrange(0, 6) =~= "<table"@);
    lemma_find_some(l, "<table"@, 0, 0);
}

/// Reading a line that holds none of the table's markers changes nothing between rows.
proof fn lemma_step_plain(rows: Seq<Seq<Seq<char>>>, ind: Seq<char>, tag: Seq<char>)
    requires
        forall|k: int| 0 <= k < ind.len() ==> ind[k] == ' ',
        tag.len() >= 4,
        tag[0] == '<',
        tag.last() == '>',
        forall|k: int| 0 < k < tag.len() ==> tag[k] != '<',
        tag[1] != 't' && tag[1] != '/' || tag[1] == 't' && tag[2] != 'a' && tag[2] != 'r' || tag[1] == '/' && (tag[2]
            != 't' || tag[3] != 'a' && tag[3] != 'r'),
    ensures
        parse_step(table_state(rows), ind + tag) == table_state(rows),
{
    reveal_strlit("<table");
    reveal_strlit("</table>");
    reveal_strlit("<tr");
    reveal_strlit("</tr>");
    lemma_trim_indent(ind, tag);
    lemma_contains_one(tag, "<table"@);
    lemma_contains_one(tag, "</table>"@);
    lemma_contains_one(tag, "<tr"@);
    lemma_contains_one(tag, "</tr>"@);
    assert(tag.subrange(0, 3)[1] == tag[1]);
    assert(tag.subrange(0, 3)[2] == tag[2]);
    if tag.len() >= 4 {
        assert(tag.subrange(0, 4)[3] == tag[3]);
    }
    if tag.len() >= 5 {
        assert(tag.subrange(0, 5)[3] == tag[3]);
    }
    if tag.len() >= 6 {
        assert(tag.subrange(0, 6)[2] == tag[2]);
    }
    if tag.len() >= 8 {
        assert(tag.subrange(0, 8)[3] == tag[3]);
    }
}

proof fn lemma_step_tr_open(rows: Seq<Seq<Seq<char>>>)
    ensures
        parse_step(table_state(rows), "    <tr>"@) == row_state(rows, Seq::empty()),
{
    reveal_strlit("<table");
    reveal_strlit("</table>");
    reveal_strlit("<tr");
    reveal_strlit("    <tr>");
    let tag = "    <tr>"@.skip(4);
    assert("    "@ + tag =~= "    <tr>"@) by {
        reveal_strlit("    ");
    }
    reveal_strlit("    ");
    lemma_trim_indent("    "@, tag);
    lemma_contains_one(tag, "<table"@);
    lemma_contains_one(tag, "</table>"@);
    lemma_contains_one(tag, "<tr"@);
    assert(tag.subrange(0, 3) =~= "<tr"@);
    assert(tag.subrange(0, 3)[1] == tag[1]);
}

proof fn lemma_step_tr_close(rows: Seq<Seq<Seq<char>>>, row: Seq<Seq<char>>)
    requires
        row.len() > 0,
    ensures
        parse_step(row_state(rows, row), "    </tr>"@) == table_state(rows.push(row)),
{
    reveal_strlit("<table");
    reveal_strlit("</table>");
    reveal_strlit("<tr");
    reveal_strlit("</tr>");
    reveal_strlit("    </tr>");
    reveal_strlit("    ");
    let tag = "    </tr>"@.skip(4);
    assert("    "@ + tag =~= "    </tr>"@);
    lemma_trim_indent("    "@, tag);
    lemma_contains_one(tag, "<table"@);
    lemma_contains_one(tag, "</table>"@);
    lemma_contains_one(tag, "<tr"@);
    lemma_contains_one(tag, "</tr>"@);
    assert(tag.subrange(0, 3)[1] == tag[1]);
    assert(tag.subrange(0, 5) =~= "</tr>"@);
    assert(tag.len() == 5);
}

proof fn lemma_step_table_close(rows: Seq<Seq<Seq<char>>>)
    ensures
        parse_step(table_state(rows), "</table>"@).rows == rows,
{
    reveal_strlit("<table");
    reveal_strlit("</table>");
    let tag = "</table>"@;
    lemma_trim_indent(Seq::empty(), tag);
    assert(Seq::<char>::empty() + tag =~= tag);
    lemma_contains_one(tag, "<table"@);
    lemma_contains_one(tag, "</table>"@);
    assert(tag.subrange(0, 6)[1] == tag[1]);
    assert(tag.subrange(0, 8) =~= "</table>"@);
}

proof fn lemma_replace_absent(s: Seq<char>, pat: Seq<char>, rep: Seq<char>)
    requires
        pat.len() > 0,
        forall|k: int| 0 <= k < s.len() ==> s[k] != pat[0],
    ensures
        replace_spec(s, pat, rep) == s,
{
    lemma_find_occurs(s, pat, 0);
    if find_from(s, pat, 0) is Some {
        let j = find_from(s, pat, 0)->Some_0 as int;
        assert(s.subrange(j, j + pat.len())[0] == s[j]);
    }
    assert(split_pieces(s, pat) =~= seq![s]);
}

proof fn lemma_unescape_plain(c: Seq<char>)
    requires
        html_plain(c),
    ensures
        unescape_spec(c) == c,
{
    reveal_strlit("&amp;");
    reveal_strlit("&lt;");
    reveal_strlit("&gt;");
    reveal_strlit("&quot;");
    reveal_strlit("&#x27;");
    reveal_strlit("&#39;");
    lemma_replace_absent(c, "&amp;"@, "&"@);
    lemma_replace_absent(c, "&lt;"@, "<"@);
    lemma_replace_absent(c, "&gt;"@, ">"@);
    lemma_replace_absent(c, "&quot;"@, "\""@);
    lemma_replace_absent(c, "&#x27;"@, "'"@);
    lemma_replace_absent(c, "&#39;"@, "'"@);
}

/// The opening of a cell line: a header cell or a body cell.
pub open spec fn cell_open(head: bool) -> Seq<char> {
    if head {
        "      <th>"@
    } else {
        "      <td>"@
    }
}

/// The closing of a cell line: a header cell or a body cell.
pub open spec fn cell_close(head: bool) -> Seq<char> {
    if head {
        "</th>"@
    } else {
        "</td>"@
    }
}

#[verifier::spinoff_prover]
#[verifier::rlimit(60)]
proof fn lemma_step_cell(rows: Seq<Seq<Seq<char>>>, row: Seq<Seq<char>>, c: Seq<char>, head: bool)
    requires
        html_plain(c),
    ensures
        parse_step(row_state(rows, row), cell_open(head) + escape_spec(c) + cell_close(head)) == row_state(
            rows,
            row.push(c),
        ),
{
    reveal_strlit("      <th>");
    reveal_strlit("      <td>");
    reveal_strlit("</th>");
    reveal_strlit("</td>");
    reveal_strlit("      ");
    reveal_strlit("<table");
    reveal_strlit("</table>");
    reveal_strlit("<tr");
    reveal_strlit("</tr>");
    reveal_strlit("<td");
    reveal_strlit("<th");
    reveal_strlit("</td>");
    reveal_strlit("</th>");
    lemma_escape_plain(c);
    lemma_unescape_plain(c);
    let x = if head { 'h' } else { 'd' };
    let inner = seq!['<', 't', x, '>'];
    let close = seq!['<', '/', 't', x, '>'];
    assert(cell_close(head) =~= close);
    assert(cell_open(head) =~= "      "@ + inner);
    let tag = inner + c + close;
    let line = cell_open(head) + escape_spec(c) + cell_close(head);
    assert(line =~= "      "@ + tag);
    let m: int = 4 + c.len() as int;
    let n: int = tag.len() as int;
    assert(n == m + 5);
    assert forall|k: int| 0 <= k < c.len() implies tag[4 + k] == c[k] by {}
    assert(tag[m] == '<' && tag[m + 1] == '/' && tag[m + 2] == 't' && tag[m + 3] == x && tag[m + 4] == '>');
    assert(tag[0] == '<' && tag[1] == 't' && tag[2] == x && tag[3] == '>');
    assert forall|k: int| 0 < k < n && k != m implies tag[k] != '<' by {
        if 4 <= k < m {
            assert(tag[k] == c[k - 4]);
        }
    }
    lemma_trim_indent("      "@, tag);
    lemma_contains_two(tag, "<table"@, m);
    lemma_contains_two(tag, "</table>"@, m);
    lemma_contains_two(tag, "<tr"@, m);
    lemma_contains_two(tag, "</tr>"@, m);
    lemma_contains_two(tag, "<td"@, m);
    lemma_contains_two(tag, "<th"@, m);
    lemma_contains_two(tag, "</td>"@, m);
    lemma_contains_two(tag, "</th>"@, m);
    assert(tag.subrange(0, 3)[2] == tag[2]);
    assert(tag.subrange(0, 3)[1] == tag[1]);
    if m + 3 <= n {
        assert(tag.subrange(m, m + 3)[1] == tag[m + 1]);
    }
    if m + 5 <= n {
        assert(tag.subrange(m, m + 5)[3] == tag[m + 3]);
        assert(tag.subrange(m, m + 5)[1] == tag[m + 1]);
    }
    assert(!occurs_at(tag, "</table>"@, m));
    assert(tag.subrange(0, 5)[1] == tag[1]);
    assert(tag.subrange(0, 8)[1] == tag[1]) by {
        if tag.len() >= 8 {
        }
    }
    assert(tag.subrange(0, 6)[2] == tag[2]) by {
        if tag.len() >= 6 {
        }
    }
    if head {
        assert(tag.subrange(0, 3) =~= "<th"@);
        assert(tag.subrange(m, m + 5) =~= "</th>"@);
    } else {
        assert(tag.subrange(0, 3) =~= "<td"@);
        assert(tag.subrange(m, m + 5) =~= "</td>"@);
    }
    reveal_with_fuel(char_index_from, 5);
    reveal_with_fuel(char_index_before, 6);
    assert(char_index_from(tag, '>', 0) == Some(3nat));
    assert(char_index_before(tag, '<', n) == Some(m as nat));
    assert(tag.subrange(4, m) =~= c);
    assert(cell_content(tag) == c);
}

proof fn lemma_run_cells(rows: Seq<Seq<Seq<char>>>, row: Seq<Seq<char>>, cells: Seq<Seq<char>>, head: bool)
    requires
        forall|k: int| 0 <= k < cells.len() ==> html_plain(#[trigger] cells[k]),
    ensures
        parse_run(row_state(rows, row), cell_lines(cells, cell_open(head), cell_close(head))) == row_state(
            rows,
            row + cells,
        ),
    decreases cells.len(),
{
    let ls = cell_lines(cells, cell_open(head), cell_close(head));
    if cells.len() == 0 {
        assert(row + cells =~= row);
    } else {
        lemma_step_cell(rows, row, cells[0], head);
        let rest = cells.drop_first();
        assert forall|k: int| 0 <= k < rest.len() implies html_plain(#[trigger] rest[k]) by {
            assert(rest[k] == cells[k + 1]);
        }
        lemma_run_cells(rows, row.push(cells[0]), rest, head);
        assert(ls.drop_first() =~= cell_lines(rest, cell_open(head), cell_close(head)));
        assert(row.push(cells[0]) + rest =~= row + cells);
    }
}

proof fn lemma_run_row(rows: Seq<Seq<Seq<char>>>, cells: Seq<Seq<char>>, head: bool)
    requires
        cells.len() > 0,
        forall|k: int| 0 <= k < cells.len() ==> html_plain(#[trigger] cells[k]),
    ensures
        parse_run(table_state(rows), row_lines(cells, cell_open(head), cell_close(head))) == table_state(
            rows.push(cells),
        ),
{
    let mid = cell_lines(cells, cell_open(head), cell_close(head));
    let a = seq!["    <tr>"@];
    let z = seq!["    </tr>"@];
    lemma_run_add(table_state(rows), a + mid, z);
    lemma_run_add(table_state(rows), a, mid);
    lemma_step_tr_open(rows);
    assert(a.drop_first() =~= Seq::<Seq<char>>::empty());
    assert(parse_run(table_state(rows), a) == row_state(rows, Seq::empty())) by {
        assert(a[0] == "    <tr>"@);
        assert(parse_run(row_state(rows, Seq::empty()), Seq::<Seq<char>>::empty()) == row_state(rows, Seq::empty()));
    }
    lemma_run_cells(rows, Seq::empty(), cells, head);
    assert(Seq::<Seq<char>>::empty() + cells =~= cells);
    lemma_step_tr_close(rows, cells);
    assert(z.drop_first() =~= Seq::<Seq<char>>::empty());
    assert(parse_run(row_state(rows, cells), z) == table_state(rows.push(cells))) by {
        assert(z[0] == "    </tr>"@);
        assert(parse_run(table_state(rows.push(cells)), Seq::<Seq<char>>::empty()) == table_state(rows.push(cells)));
    }
    assert(a + mid + z =~= row_lines(cells, cell_open(head), cell_close(head)));
}

proof fn lemma_run_body(rows: Seq<Seq<Seq<char>>>, body: Seq<Seq<Seq<char>>>, n: int)
    requires
        0 <= n <= body.len(),
        forall|r: int| 0 <= r < body.len() ==> (#[trigger] body[r]).len() > 0,
        forall|r: int, k: int| 0 <= r < body.len() && 0 <= k < body[r].len() ==> html_plain(#[trigger] body[r][k]),
    ensures
        parse_run(table_state(rows), body_lines(body, n)) == table_state(rows + body.take(n)),
    decreases n,
{
    if n == 0 {
        assert(rows + body.take(0) =~= rows);
    } else {
        lemma_run_body(rows, body, n - 1);
        lemma_run_add(table_state(rows), body_lines(body, n - 1), row_lines(body[n - 1], "      <td>"@, "</td>"@));
        assert(forall|k: int| 0 <= k < body[n - 1].len() ==> html_plain(#[trigger] body[n - 1][k]));
        lemma_run_row(rows + body.take(n - 1), body[n - 1], false);
        assert(cell_open(false) == "      <td>"@ && cell_close(false) == "</td>"@);
        assert((rows + body.take(n - 1)).push(body[n - 1]) =~= rows + body.take(n));
    }
}

proof fn lemma_run_one(s: ParseState, l: Seq<char>)
    ensures
        parse_run(s, seq![l]) == parse_step(s, l),
{
    assert(seq![l].drop_first() =~= Seq::<Seq<char>>::empty());
    assert(seq![l][0] == l);
    assert(parse_run(parse_step(s, l), Seq::<Seq<char>>::empty()) == parse_step(s, l));
}

proof fn lemma_cell_lines_plain(cells: Seq<Seq<char>>, head: bool)
    requires
        forall|k: int| 0 <= k < cells.len() ==> html_plain(#[trigger] cells[k]),
    ensures
        forall|k: int| 0 <= k < cells.len() ==> plain_line(#[trigger] cell_lines(cells, cell_open(head), cell_close(head))[k]),
{
    reveal_strlit("      <th>");
    reveal_strlit("      <td>");
    reveal_strlit("</th>");
    reveal_strlit("</td>");
    assert forall|k: int| 0 <= k < cells.len() implies plain_line(#[trigger] cell_lines(cells, cell_open(head), cell_close(head))[k]) by {
        let c = cells[k];
        lemma_escape_plain(c);
        let l = cell_open(head) + c + cell_close(head);
        assert(cell_lines(cells, cell_open(head), cell_close(head))[k] == l);
        assert forall|i: int| 0 <= i < l.len() implies l[i] != '\n' by {
            if 10 <= i < 10 + c.len() {
                assert(l[i] == c[i - 10]);
            }
        }
        assert(l.last() == '>');
    }
}

/// Parsing the HTML that `table_to_html` writes for a table whose rows all have cells, none
/// of them holding a line feed or a character that HTML escapes, gives the table back: the
/// header row and every body row, in order.
pub proof fn law_html_round_trip(t: Seq<Seq<Seq<char>>>)
    requires
        t.len() > 0,
        forall|r: int| 0 <= r < t.len() ==> (#[trigger] t[r]).len() > 0,
        forall|r: int, k: int| 0 <= r < t.len() && 0 <= k < t[r].len() ==> html_plain(#[trigger] t[r][k]),
    ensures
        html_rows(render_spec(default_html(), t)) == t,
{
    reveal_strlit("<table");
    reveal_strlit(" style=\"");
    reveal_strlit("border-collapse: collapse");
    reveal_strlit("\"");
    reveal_strlit(">");
    reveal_strlit("  <thead>");
    reveal_strlit("  </thead>");
    reveal_strlit("  <tbody>");
    reveal_strlit("  </tbody>");
    reveal_strlit("</table>");
    reveal_strlit("    <tr>");
    reveal_strlit("    </tr>");
    reveal_strlit("  ");
    let g = html_lines(t);
    let body = t.skip(1);
    let head = row_lines(t[0], "      <th>"@, "</th>"@);
    let bl = body_lines(body, body.len() as int);
    assert(forall|k: int| 0 <= k < t[0].len() ==> html_plain(#[trigger] t[0][k]));
    lemma_render_lines(t);
    // every line is a plain line
    lemma_cell_lines_plain(t[0], true);
    assert forall|k: int| 0 <= k < head.len() implies plain_line(#[trigger] head[k]) by {
        if 0 < k < head.len() - 1 {
            assert(head[k] == cell_lines(t[0], cell_open(true), cell_close(true))[k - 1]);
        }
    }
    assert forall|k: int| 0 <= k < bl.len() implies plain_line(#[trigger] bl[k]) by {
        lemma_body_plain(body, body.len() as int, k);
    }
    assert forall|k: int| 0 <= k < g.len() implies plain_line(#[trigger] g[k]) by {
        let a = seq![opening_line(), "  <thead>"@];
        let b = seq!["  </thead>"@, "  <tbody>"@];
        if k < 2 {
            assert(g[k] == a[k]);
        } else if k < 2 + head.len() {
            assert(g[k] == head[k - 2]);
        } else if k < 4 + head.len() {
            assert(g[k] == b[k - 2 - head.len()]);
        } else if k < 4 + head.len() + bl.len() {
            assert(g[k] == bl[k - 4 - head.len()]);
        }
    }
    lemma_lines_join(g);
    lemma_upto_run(g, g.len() as int);
    assert(g.take(g.len() as int) =~= g);
    // the reading, piece by piece
    let s0 = parse_start();
    let a = seq![opening_line(), "  <thead>"@];
    let b = seq!["  </thead>"@, "  <tbody>"@];
    let z = seq!["  </tbody>"@, "</table>"@];
    lemma_run_add(s0, a + head + b + bl, z);
    lemma_run_add(s0, a + head + b, bl);
    lemma_run_add(s0, a + head, b);
    lemma_run_add(s0, a, head);
    lemma_run_add(s0, seq![opening_line()], seq!["  <thead>"@]);
    assert(seq![opening_line()] + seq!["  <thead>"@] =~= a);
    lemma_run_one(s0, opening_line());
    lemma_step_opening();
    let e = Seq::<Seq<Seq<char>>>::empty();
    lemma_run_one(table_state(e), "  <thead>"@);
    assert("  <thead>"@ =~= "  "@ + "<thead>"@) by { reveal_strlit("<thead>"); }
    reveal_strlit("<thead>");
    lemma_step_plain(e, "  "@, "<thead>"@);
    lemma_run_row(e, t[0], true);
    let r1 = e.push(t[0]);
    lemma_run_add(table_state(r1), seq!["  </thead>"@], seq!["  <tbody>"@]);
    assert(seq!["  </thead>"@] + seq!["  <tbody>"@] =~= b);
    lemma_run_one(table_state(r1), "  </thead>"@);
    reveal_strlit("</thead>");
    reveal_strlit("<tbody>");
    reveal_strlit("</tbody>");
    assert("  </thead>"@ =~= "  "@ + "</thead>"@);
    lemma_step_plain(r1, "  "@, "</thead>"@);
    lemma_run_one(table_state(r1), "  <tbody>"@);
    assert("  <tbody>"@ =~= "  "@ + "<tbody>"@);
    lemma_step_plain(r1, "  "@, "<tbody>"@);
    lemma_run_body(r1, body, body.len() as int);
    assert(r1 + body.take(body.len() as int) =~= t);
    lemma_run_add(table_state(t), seq!["  </tbody>"@], seq!["</table>"@]);
    assert(seq!["  </tbody>"@] + seq!["</table>"@] =~= z);
    lemma_run_one(table_state(t), "  </tbody>"@);
    assert("  </tbody>"@ =~= "  "@ + "</tbody>"@);
    lemma_step_plain(t, "  "@, "</tbody>"@);
    lemma_run_one(table_state(t), "</table>"@);
    lemma_step_table_close(t);
    assert(cell_open(true) == "      <th>"@ && cell_close(true) == "</th>"@);
    assert(a + head + b + bl + z =~= g);
}

proof fn lemma_body_plain(body: Seq<Seq<Seq<char>>>, n: int, k: int)
    requires
        0 <= n <= body.len(),
        0 <= k < body_lines(body, n).len(),
        forall|r: int, j: int| 0 <= r < body.len() && 0 <= j < body[r].len() ==> html_plain(#[trigger] body[r][j]),
    ensures
        plain_line(body_lines(body, n)[k]),
    decreases n,
{
    reveal_strlit("    <tr>");
    reveal_strlit("    </tr>");
    if n > 0 {
        let prev = body_lines(body, n - 1);
        let rl = row_lines(body[n - 1], "      <td>"@, "</td>"@);
        assert(body_lines(body, n) == prev + rl);
        if k < prev.len() {
            lemma_body_plain(body, n - 1, k);
            assert(body_lines(body, n)[k] == prev[k]);
        } else {
            let j = k - prev.len();
            assert(body_lines(body, n)[k] == rl[j]);
            assert(forall|i: int| 0 <= i < body[n - 1].len() ==> html_plain(#[trigger] body[n - 1][i]));
            lemma_cell_lines_plain(body[n - 1], false);
            assert(cell_open(false) == "      <td>"@ && cell_close(false) == "</td>"@);
            if 0 < j < rl.len() - 1 {
                assert(rl[j] == cell_lines(body[n - 1], cell_open(false), cell_close(false))[j - 1]);
            }
        }
    }
}
} // verus!
