use crate::text::{
    chars_of, lines, lines_of, owned, split_pieces, split_str, str_is_empty, trim, trim_spec, views,
};
use vstd::prelude::*;

verus! {

/// Helpers for CSV text that a web page hands over.
pub struct WasmUtils;

/// The lines that hold more than whitespace, in order.
pub open spec fn nonblank_lines(ls: Seq<Seq<char>>) -> Seq<Seq<char>>
    decreases ls.len(),
{
    if ls.len() == 0 {
        Seq::empty()
    } else {
        let r = nonblank_lines(ls.drop_last());
        if trim_spec(ls.last()).len() > 0 {
            r.push(ls.last())
        } else {
            r
        }
    }
}

/// The lines of a CSV text that hold more than whitespace.
pub open spec fn csv_lines(csv: Seq<char>) -> Seq<Seq<char>> {
    nonblank_lines(lines_of(csv))
}

/// The separator asked for, or a comma.
pub open spec fn separator_or_comma(separator: Option<String>) -> Seq<char> {
    match separator {
        Some(s) => s@,
        None => ","@,
    }
}

/// The number of fields of a line (`str::split` by the separator).
pub open spec fn field_count(line: Seq<char>, sep: Seq<char>) -> nat {
    split_pieces(line, sep).len()
}

/// Whether a CSV text has a line with more than whitespace, and every such line as many
/// fields as the first.
pub open spec fn csv_valid(csv: Seq<char>, sep: Seq<char>) -> bool {
    let ls = csv_lines(csv);
    ls.len() > 0 && forall|i: int| 0 <= i < ls.len() ==> field_count(#[trigger] ls[i], sep) == field_count(ls[0], sep)
}

/// The number of times `c` occurs in `s`.
pub open spec fn char_count(s: Seq<char>, c: char) -> nat
    decreases s.len(),
{
    if s.len() == 0 {
        0
    } else {
        char_count(s.drop_last(), c) + if s.last() == c {
            1nat
        } else {
            0nat
        }
    }
}

/// The separator that a line suggests: a tab where tabs are at least as many as commas (and
/// there is one), else a semicolon or a bar where it beats the commas, else a comma.
pub open spec fn separator_for(line: Seq<char>) -> Seq<char> {
    let comma = char_count(line, ',');
    let semicolon = char_count(line, ';');
    let tab = char_count(line, '\t');
    let pipe = char_count(line, '|');
    if tab > 0 && tab >= comma {
        "\t"@
    } else if semicolon > comma {
        ";"@
    } else if pipe > comma {
        "|"@
    } else {
        ","@
    }
}

/// The first line of a text, or nothing.
pub open spec fn first_line(s: Seq<char>) -> Seq<char> {
    if lines_of(s).len() > 0 {
        lines_of(s)[0]
    } else {
        Seq::empty()
    }
}

/// The lines of `csv` that hold more than whitespace.
fn nonblank(csv: &str) -> (res: Vec<String>)
    ensures
        views(res@) == csv_lines(csv@),
{
    let ls = lines(csv);
    let mut out: Vec<String> = Vec::new();
    let mut i: usize = 0;
    while i < ls.len()
        invariant
            i <= ls@.len(),
            views(ls@) == lines_of(csv@),
            views(out@) == nonblank_lines(views(ls@).take(i as int)),
        decreases ls@.len() - i,
    {
        let t = trim(ls[i].as_str());
        let ghost prev = views(out@);
        assert(views(ls@).take(i + 1).drop_last() =~= views(ls@).take(i as int));
        assert(views(ls@).take(i + 1).last() == ls@[i as int]@);
        if !str_is_empty(t.as_str()) {
            out.push(owned(ls[i].as_str()));
            assert(views(out@) =~= prev.push(ls@[i as int]@));
        }
        i = i + 1;
    }
    assert(views(ls@).take(i as int) =~= views(ls@));
    out
}

/// The number of times `c` occurs in `s`.
fn count_char(s: &str, c: char) -> (res: usize)
    ensures
        res == char_count(s@, c),
{
    let v = chars_of(s);
    let mut n: usize = 0;
    let mut i: usize = 0;
    while i < v.len()
        invariant
            i <= v@.len(),
            v@ == s@,
            n == char_count(v@.take(i as int), c),
            n <= i,
        decreases v@.len() - i,
    {
        assert(v@.take(i + 1).drop_last() =~= v@.take(i as int));
        if v[i] == c {
            n = n + 1;
        }
        i = i + 1;
    }
    assert(v@.take(i as int) =~= v@);
    n
}

impl WasmUtils {
    /// Whether a CSV text is well formed (see `csv_valid`), its fields split by the separator
    /// given or by commas.
    pub fn validate_csv(csv: &str, separator: Option<String>) -> (res: bool)
        ensures
            res == csv_valid(csv@, separator_or_comma(separator)),
    {
        let sep = match separator {
            Some(s) => s,
            None => owned(","),
        };
        let ls = nonblank(csv);
        if ls.len() == 0 {
            return false;
        }
        let expected = split_str(ls[0].as_str(), sep.as_str()).len();
        let mut i: usize = 0;
        while i < ls.len()
            invariant
                i <= ls@.len(),
                ls@.len() > 0,
                views(ls@) == csv_lines(csv@),
                sep@ == separator_or_comma(separator),
                expected == field_count(ls@[0]@, sep@),
                forall|k: int| 0 <= k < i ==> field_count(#[trigger] views(ls@)[k], sep@) == expected,
            decreases ls@.len() - i,
        {
            let n = split_str(ls[i].as_str(), sep.as_str()).len();
            if n != expected {
                assert(field_count(views(ls@)[i as int], sep@) != field_count(views(ls@)[0], sep@));
                return false;
            }
            i = i + 1;
        }
        true
    }

    /// The number of lines of a CSV text that hold more than whitespace, and the number of
    /// fields of the first of them (none without such a line).
    pub fn csv_dimensions(csv: &str, separator: Option<String>) -> (res: (usize, usize))
        ensures
            res.0 == csv_lines(csv@).len(),
            res.1 == (if csv_lines(csv@).len() > 0 {
                field_count(csv_lines(csv@)[0], separator_or_comma(separator))
            } else {
                0
            }),
    {
        let sep = match separator {
            Some(s) => s,
            None => owned(","),
        };
        let ls = nonblank(csv);
        if ls.len() == 0 {
            (0, 0)
        } else {
            let n = split_str(ls[0].as_str(), sep.as_str()).len();
            (ls.len(), n)
        }
    }

    /// The separator that the first line of a CSV text suggests (see `separator_for`).
    pub fn detect_csv_separator(csv: &str) -> (res: String)
        ensures
            res@ == separator_for(first_line(csv@)),
    {
        let ls = lines(csv);
        let first = if ls.len() > 0 {
            owned(ls[0].as_str())
        } else {
            owned("")
        };
        proof {
            reveal_strlit("");
            assert(views(ls@).len() == ls@.len());
        }
        assert(first@ == first_line(csv@));
        let comma = count_char(first.as_str(), ',');
        let semicolon = count_char(first.as_str(), ';');
        let tab = count_char(first.as_str(), '\t');
        let pipe = count_char(first.as_str(), '|');
        if tab > 0 && tab >= comma {
            owned("\t")
        } else if semicolon > comma {
            owned(";")
        } else if pipe > comma {
            owned("|")
        } else {
            owned(",")
        }
    }
}

} // verus!
