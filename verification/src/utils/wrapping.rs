use crate::text::{
    char_is_ascii_alpha, chars_of, concat2, concat_all, concat_strings, is_ascii_alpha,
    not_newline, owned, span_end, span_len, str_ends_with_char, str_eq, string_from_chars, views,
};
use crate::utils::ansi::byte_len;
use vstd::prelude::*;

verus! {

/// The pieces of `s` between line feeds (`str::split('\n')`): one more than there are line
/// feeds, the last one after the final line feed.
pub open spec fn newline_pieces(s: Seq<char>) -> Seq<Seq<char>>
    decreases s.len(),
{
    let n = span_len(s, |c: char| not_newline(c));
    if n >= s.len() {
        seq![s]
    } else {
        seq![s.take(n as int)] + newline_pieces(s.skip(n + 1 as int))
    }
}

/// `s` without its trailing spaces.
pub open spec fn trim_end_spaces(s: Seq<char>) -> Seq<char>
    decreases s.len(),
{
    if s.len() > 0 && s.last() == ' ' {
        trim_end_spaces(s.drop_last())
    } else {
        s
    }
}

/// The lines that `textwrap::wrap` breaks `text` into, at `width` columns, with the first-fit
/// algorithm, words broken where they do not fit when `break_words` holds.
pub uninterp spec fn textwrap_lines(text: Seq<char>, width: usize, break_words: bool) -> Seq<
    Seq<char>,
>;

/// `textwrap::wrap` with `Options::new(width)`, the given `break_words` and the first-fit
/// algorithm. The lines are named. The source shows that the text is first split at line feeds
/// and that a piece shorter (in bytes) than the width is kept as one line, without its trailing
/// spaces; so when every piece is that short, the lines are exactly those pieces.
#[verifier::external_body]
fn textwrap_wrap(text: &str, width: usize, break_words: bool) -> (res: Vec<String>)
    requires
        width > 0,
    ensures
        views(res@) == textwrap_lines(text@, width, break_words),
        (forall|k: int|
            0 <= k < newline_pieces(text@).len() ==> byte_len(#[trigger] newline_pieces(
                text@,
            )[k]) < width) ==> views(res@) == newline_pieces(text@).map_values(
            |p: Seq<char>| trim_end_spaces(p),
        ),
{
    let options = textwrap::Options::new(width).break_words(break_words).wrap_algorithm(
        textwrap::WrapAlgorithm::FirstFit,
    );
    textwrap::wrap(text, options).into_iter().map(|line| line.to_string()).collect()
}

/// Not an ASCII letter.
pub open spec fn not_ascii_alpha(c: char) -> bool {
    !is_ascii_alpha(c)
}

/// Where an escape sequence whose parameters start at `k` ends: just after the first ASCII
/// letter from `k` on, or at the end of `s`.
pub open spec fn escape_end(s: Seq<char>, k: int) -> int {
    let n = span_len(s.skip(k), |c: char| not_ascii_alpha(c));
    if k + n < s.len() {
        k + n + 1
    } else {
        s.len() as int
    }
}

/// The escape sequences `ESC [ ... letter` of `s` from index `i` on, left to right.
pub open spec fn escapes_from(s: Seq<char>, i: int) -> Seq<Seq<char>>
    decreases s.len() - i,
{
    if i < 0 || i >= s.len() {
        Seq::empty()
    } else if s[i] == '\u{1b}' && i + 1 < s.len() && s[i + 1] == '[' {
        let j = escape_end(s, i + 2);
        if j <= i || j > s.len() {
            Seq::empty()
        } else {
            seq![s.subrange(i, j)] + escapes_from(s, j)
        }
    } else {
        escapes_from(s, i + 1)
    }
}

/// The sequence that resets all colours and styles, `ESC [ 0 m`.
pub open spec fn reset_seq() -> Seq<char> {
    seq!['\u{1b}', '[', '0', 'm']
}

/// The active styles after the sequences `seqs`: a reset clears them, another style sequence
/// (ending in `m`) is added unless already active, anything else is ignored.
pub open spec fn update_active(active: Seq<Seq<char>>, seqs: Seq<Seq<char>>) -> Seq<Seq<char>>
    decreases seqs.len(),
{
    if seqs.len() == 0 {
        active
    } else {
        let s = seqs[0];
        let next = if s.len() > 0 && s.last() == 'm' {
            if s == reset_seq() {
                Seq::empty()
            } else if active.contains(s) {
                active
            } else {
                active.push(s)
            }
        } else {
            active
        };
        update_active(next, seqs.drop_first())
    }
}

/// The lines from `i` on, each prefixed with the styles still active from the lines before
/// it, and each but the last closed with a reset while some style is active.
pub open spec fn fix_from(lines: Seq<Seq<char>>, i: int, active: Seq<Seq<char>>) -> Seq<
    Seq<char>,
>
    decreases lines.len() - i,
{
    if i < 0 || i >= lines.len() {
        Seq::empty()
    } else {
        let processed = if active.len() > 0 {
            concat_all(active) + lines[i]
        } else {
            lines[i]
        };
        let next = update_active(active, escapes_from(processed, 0));
        let out = if i < lines.len() - 1 && next.len() > 0 {
            processed + reset_seq()
        } else {
            processed
        };
        seq![out] + fix_from(lines, i + 1, next)
    }
}

/// Wrapped lines with their colours carried over line breaks.
pub open spec fn fix_ansi(lines: Seq<Seq<char>>) -> Seq<Seq<char>> {
    if lines.len() <= 1 {
        lines
    } else {
        fix_from(lines, 0, Seq::empty())
    }
}

/// What `wrap_text` gives: no lines for width 0, else the lines `textwrap` breaks the text
/// into (words kept whole when `word_wrap`), with colours carried over line breaks.
pub open spec fn wrap_spec(text: Seq<char>, width: nat, word_wrap: bool) -> Seq<Seq<char>> {
    if width == 0 || width > usize::MAX {
        Seq::empty()
    } else {
        fix_ansi(textwrap_lines(text, width as usize, !word_wrap))
    }
}

/// Whether `v` holds a string equal to `s`.
pub fn contains_string(v: &Vec<String>, s: &str) -> (res: bool)
    ensures
        res == views(v@).contains(s@),
{
    let mut i: usize = 0;
    while i < v.len()
        invariant
            i <= v.len(),
            forall|k: int| 0 <= k < i ==> v@[k]@ != s@,
        decreases v.len() - i,
    {
        if str_eq(v[i].as_str(), s) {
            assert(views(v@)[i as int] == s@);
            return true;
        }
        i = i + 1;
    }
    proof {
        if views(v@).contains(s@) {
            let k = choose|k: int| 0 <= k < views(v@).len() && views(v@)[k] == s@;
            assert(v@[k]@ == s@);
        }
    }
    false
}

/// The escape sequences `ESC [ ... letter` of `text`, left to right.
pub fn extract_ansi_sequences(text: &str) -> (res: Vec<String>)
    ensures
        views(res@) == escapes_from(text@, 0),
{
    let v = chars_of(text);
    let mut res: Vec<String> = Vec::new();
    let mut i: usize = 0;
    while i < v.len()
        invariant
            i <= v.len(),
            v@ == text@,
            views(res@) + escapes_from(v@, i as int) == escapes_from(v@, 0),
        decreases v.len() - i,
    {
        if v[i] == '\u{1b}' && i + 1 < v.len() && v[i + 1] == '[' {
            let k = span_end(
                &v,
                i + 2,
                Ghost(|c: char| not_ascii_alpha(c)),
                |c: char| -> (r: bool) ensures r == not_ascii_alpha(c) { char_is_ascii_alpha(c) == false },
            );
            let j: usize = if k < v.len() {
                k + 1
            } else {
                v.len()
            };
            assert(j == escape_end(v@, i + 2));
            let piece = string_from_chars(&v, i, j);
            let ghost before = views(res@);
            res.push(piece);
            assert(views(res@) =~= before.push(piece@));
            assert(escapes_from(v@, i as int) =~= seq![piece@] + escapes_from(v@, j as int));
            assert(views(res@) + escapes_from(v@, j as int) =~= before + escapes_from(
                v@,
                i as int,
            ));
            i = j;
        } else {
            i = i + 1;
        }
    }
    assert(views(res@) + Seq::<Seq<char>>::empty() =~= views(res@));
    res
}

/// Folds the style sequences `new_sequences` into the active styles (see `update_active`).
pub fn update_active_sequences(active: &mut Vec<String>, new_sequences: &Vec<String>)
    ensures
        views(final(active)@) == update_active(views(old(active)@), views(new_sequences@)),
{
    let mut k: usize = 0;
    assert(views(new_sequences@).skip(0) =~= views(new_sequences@));
    while k < new_sequences.len()
        invariant
            k <= new_sequences.len(),
            update_active(views(active@), views(new_sequences@).skip(k as int)) == update_active(
                views(old(active)@),
                views(new_sequences@),
            ),
        decreases new_sequences.len() - k,
    {
        let ghost rest = views(new_sequences@).skip(k as int);
        let seq = &new_sequences[k];
        assert(rest[0] == seq@);
        assert(rest.drop_first() =~= views(new_sequences@).skip(k + 1));
        if str_ends_with_char(seq.as_str(), 'm') {
            proof {
                reveal_strlit("\u{1b}[0m");
                assert("\u{1b}[0m"@.len() == 4);
                assert("\u{1b}[0m"@ =~= reset_seq());
            }
            if str_eq(seq.as_str(), "\u{1b}[0m") {
                assert(seq@ == reset_seq());
                *active = Vec::new();
                assert(views(active@) =~= Seq::<Seq<char>>::empty());
            } else if !contains_string(active, seq.as_str()) {
                assert(seq@ != reset_seq());
                let ghost before = views(active@);
                active.push(seq.clone());
                assert(views(active@) =~= before.push(seq@));
            } else {
                assert(seq@ != reset_seq());
            }
        }
        k = k + 1;
    }
    assert(views(new_sequences@).skip(k as int) =~= Seq::<Seq<char>>::empty());
}

/// The lines with their colours carried over line breaks (see `fix_ansi`).
pub fn fix_ansi_wrapping(lines: Vec<String>) -> (res: Vec<String>)
    ensures
        views(res@) == fix_ansi(views(lines@)),
{
    if lines.len() <= 1 {
        return lines;
    }
    let n = lines.len();
    let mut result: Vec<String> = Vec::new();
    let mut active: Vec<String> = Vec::new();
    let mut i: usize = 0;
    assert(views(active@) =~= Seq::<Seq<char>>::empty());
    while i < n
        invariant
            i <= n == lines.len(),
            n > 1,
            views(result@) + fix_from(views(lines@), i as int, views(active@)) == fix_from(
                views(lines@),
                0,
                Seq::empty(),
            ),
        decreases n - i,
    {
        let ghost a0 = views(active@);
        let processed = if active.len() > 0 {
            let joined = concat_strings(&active);
            concat2(joined.as_str(), lines[i].as_str())
        } else {
            owned(lines[i].as_str())
        };
        let seqs = extract_ansi_sequences(processed.as_str());
        update_active_sequences(&mut active, &seqs);
        proof {
            reveal_strlit("\u{1b}[0m");
            assert("\u{1b}[0m"@.len() == 4);
            assert("\u{1b}[0m"@ =~= reset_seq());
        }
        let out = if i < n - 1 && active.len() > 0 {
            concat2(processed.as_str(), "\u{1b}[0m")
        } else {
            processed
        };
        let ghost before = views(result@);
        result.push(out);
        assert(views(result@) =~= before.push(out@));
        assert(fix_from(views(lines@), i as int, a0) =~= seq![out@] + fix_from(
            views(lines@),
            i + 1,
            views(active@),
        ));
        assert(views(result@) + fix_from(views(lines@), i + 1, views(active@)) =~= before
            + fix_from(views(lines@), i as int, a0));
        i = i + 1;
    }
    assert(views(result@) + Seq::<Seq<char>>::empty() =~= views(result@));
    result
}

/// `text` broken into lines of at most `width` columns, words kept whole when `word_wrap`
/// (see `wrap_spec`); no lines for width 0.
pub fn wrap_text(text: &str, width: usize, word_wrap: bool) -> (res: Vec<String>)
    ensures
        views(res@) == wrap_spec(text@, width as nat, word_wrap),
{
    if width == 0 {
        let v: Vec<String> = Vec::new();
        assert(views(v@) =~= Seq::<Seq<char>>::empty());
        return v;
    }
    let wrapped = textwrap_wrap(text, width, !word_wrap);
    fix_ansi_wrapping(wrapped)
}

/// A cell's text broken into lines (as `wrap_text`).
pub fn wrap_cell(text: &str, width: usize, word_wrap: bool) -> (res: Vec<String>)
    ensures
        views(res@) == wrap_spec(text@, width as nat, word_wrap),
{
    wrap_text(text, width, word_wrap)
}

/// How many lines a cell takes: its wrapped lines, at least one.
pub open spec fn cell_height_spec(text: Seq<char>, width: nat, word_wrap: bool) -> nat {
    let n = wrap_spec(text, width, word_wrap).len();
    if n > 1 {
        n
    } else {
        1
    }
}

/// How many lines a cell takes when wrapped to `width` (at least one).
pub fn calculate_cell_height(text: &str, width: usize, word_wrap: bool) -> (res: usize)
    ensures
        res == cell_height_spec(text@, width as nat, word_wrap),
{
    let wrapped = wrap_text(text, width, word_wrap);
    if wrapped.len() > 1 {
        wrapped.len()
    } else {
        1
    }
}

} // verus!
