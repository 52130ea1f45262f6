use crate::alignment::Alignment;
use crate::text::{
    chars_of, concat2, concat3, owned, push_char, push_str, spaces, spaces_string,
    split_whitespace, views, words_of,
};
use crate::types::Row;
use crate::utils::ansi::char_cols;
use crate::utils::formatting::table_view;
use crate::utils::unicode::{char_width, str_width, unicode_str_width};
use vstd::prelude::*;

verus! {

/// The display width of a string.
pub fn display_width(s: &str) -> (res: usize)
    ensures
        res == unicode_str_width(s@),
        s@.len() == 0 ==> res == 0,
{
    str_width(s)
}

/// The display width of a character, 0 for a control character.
pub fn char_display_width(c: char) -> (res: usize)
    ensures
        res == char_cols(c),
        res <= 3,
{
    match char_width(c) {
        Some(w) => w,
        None => 0,
    }
}

/// The characters of `s` from index `i` on that fit, one after another, while their widths
/// add up to at most `max`.
pub open spec fn fit_chars(s: Seq<char>, i: int, used: nat, max: nat) -> Seq<char>
    decreases s.len() - i,
{
    if i < 0 || i >= s.len() || used + char_cols(s[i]) > max {
        Seq::empty()
    } else {
        seq![s[i]] + fit_chars(s, i + 1, used + char_cols(s[i]), max)
    }
}

/// `s` unchanged when it fits in `max_width` columns, else its characters from the front
/// while they fit.
pub open spec fn truncate_to_width_spec(s: Seq<char>, max_width: nat) -> Seq<char> {
    if unicode_str_width(s) <= max_width {
        s
    } else {
        fit_chars(s, 0, 0, max_width)
    }
}

/// `s` cut to `max_width` display columns (see `truncate_to_width_spec`).
pub fn truncate_to_width(s: &str, max_width: usize) -> (res: String)
    ensures
        res@ == truncate_to_width_spec(s@, max_width as nat),
{
    if display_width(s) <= max_width {
        return owned(s);
    }
    let v = chars_of(s);
    let mut result = String::new();
    let mut current: usize = 0;
    let mut i: usize = 0;
    assert(result@ + fit_chars(v@, 0, 0, max_width as nat) =~= fit_chars(v@, 0, 0, max_width as nat));
    while i < v.len()
        invariant_except_break
            i <= v.len(),
            current <= max_width,
            result@ + fit_chars(v@, i as int, current as nat, max_width as nat) == fit_chars(
                v@,
                0,
                0,
                max_width as nat,
            ),
        ensures
            result@ == fit_chars(v@, 0, 0, max_width as nat),
        decreases v.len() - i,
    {
        let cw = char_display_width(v[i]);
        if cw > max_width - current {
            assert(result@ + Seq::<char>::empty() =~= result@);
            break;
        }
        push_char(&mut result, v[i]);
        current = current + cw;
        i = i + 1;
    }
    proof {
        if i >= v.len() {
            assert(result@ + Seq::<char>::empty() =~= result@);
        }
    }
    assert(v@ == s@);
    result
}

/// `s` padded with spaces to `target_width` display columns: on the right (left, justify),
/// on the left (right) or around it, the smaller half on the left (center).
pub open spec fn pad_to_width_spec(s: Seq<char>, target_width: nat, alignment: Alignment) -> Seq<char> {
    let w = unicode_str_width(s) as nat;
    if w >= target_width {
        s
    } else {
        let p = (target_width - w) as nat;
        match alignment {
            Alignment::Right => spaces(p) + s,
            Alignment::Center => spaces(p / 2) + s + spaces((p - p / 2) as nat),
            _ => s + spaces(p),
        }
    }
}

/// `s` padded to `target_width` display columns (see `pad_to_width_spec`).
pub fn pad_to_width(s: &str, target_width: usize, alignment: Alignment) -> (res: String)
    ensures
        res@ == pad_to_width_spec(s@, target_width as nat, alignment),
{
    let current = display_width(s);
    if current >= target_width {
        return owned(s);
    }
    let p: usize = target_width - current;
    match alignment {
        Alignment::Right => concat2(spaces_string(p).as_str(), s),
        Alignment::Center => {
            let left: usize = p / 2;
            concat3(spaces_string(left).as_str(), s, spaces_string(p - left).as_str())
        },
        _ => concat2(s, spaces_string(p).as_str()),
    }
}

/// The widest cell of column `c` among the first `n` rows.
pub open spec fn unicode_column_max(t: Seq<Seq<Seq<char>>>, c: int, n: int) -> nat
    decreases n,
{
    if n <= 0 {
        0
    } else {
        let rest = unicode_column_max(t, c, n - 1);
        let w = if c < t[n - 1].len() {
            unicode_str_width(t[n - 1][c]) as nat
        } else {
            0
        };
        if w > rest {
            w
        } else {
            rest
        }
    }
}

/// For each column of the first row, its widest cell in display columns.
pub fn calculate_unicode_column_widths(data: &[Row]) -> (res: Vec<usize>)
    ensures
        res@.len() == (if data@.len() > 0 {
            data@[0]@.len()
        } else {
            0
        }),
        forall|c: int|
            0 <= c < res@.len() ==> res@[c] == unicode_column_max(
                table_view(data@),
                c,
                data@.len() as int,
            ),
{
    let ghost t = table_view(data@);
    if data.len() == 0 {
        return Vec::new();
    }
    let n = data[0].len();
    let mut widths: Vec<usize> = Vec::new();
    let mut c: usize = 0;
    while c < n
        invariant
            c <= n,
            data@.len() > 0,
            n == data@[0]@.len(),
            t == table_view(data@),
            widths@.len() == c,
            forall|k: int| 0 <= k < c ==> widths@[k] == unicode_column_max(t, k, data@.len() as int),
        decreases n - c,
    {
        let mut best: usize = 0;
        let mut i: usize = 0;
        while i < data.len()
            invariant
                i <= data.len(),
                t == table_view(data@),
                best == unicode_column_max(t, c as int, i as int),
            decreases data.len() - i,
        {
            let row = &data[i];
            assert(t[i as int] == views(row@));
            if c < row.len() {
                let w = display_width(row[c].as_str());
                assert(views(row@)[c as int] == row@[c as int]@);
                if w > best {
                    best = w;
                }
            }
            i = i + 1;
        }
        widths.push(best);
        c = c + 1;
    }
    widths
}

/// The lines of `s` from index `i` on, broken character by character by display width: a
/// character that would overflow a non-empty line starts the next one.
pub open spec fn width_wrap_from(s: Seq<char>, i: int, cur: Seq<char>, used: nat, max: nat) -> Seq<Seq<char>>
    decreases s.len() - i,
{
    if i < 0 || i >= s.len() {
        if cur.len() > 0 {
            seq![cur]
        } else {
            Seq::empty()
        }
    } else if used + char_cols(s[i]) > max && cur.len() > 0 {
        seq![cur] + width_wrap_from(s, i + 1, seq![s[i]], char_cols(s[i]), max)
    } else {
        width_wrap_from(s, i + 1, cur.push(s[i]), used + char_cols(s[i]), max)
    }
}

/// `s` broken character by character by display width (one empty line for empty text).
pub open spec fn width_char_wrap(s: Seq<char>, max: nat) -> Seq<Seq<char>> {
    let r = width_wrap_from(s, 0, Seq::empty(), 0, max);
    if r.len() == 0 {
        seq![Seq::empty()]
    } else {
        r
    }
}

/// `text` broken character by character at `max_width` display columns.
fn unicode_character_wrap(text: &str, max_width: usize) -> (res: Vec<String>)
    ensures
        views(res@) == width_char_wrap(text@, max_width as nat),
{
    let v = chars_of(text);
    let mut lines: Vec<String> = Vec::new();
    let mut current = String::new();
    let mut used: usize = 0;
    let mut i: usize = 0;
    while i < v.len()
        invariant
            i <= v.len(),
            v@ == text@,
            used <= max_width || used <= 3,
            current@.len() == 0 ==> used == 0,
            views(lines@) + width_wrap_from(v@, i as int, current@, used as nat, max_width as nat)
                == width_wrap_from(v@, 0, Seq::empty(), 0, max_width as nat),
        decreases v.len() - i,
    {
        let cw = char_display_width(v[i]);
        let ghost before = views(lines@);
        let ghost cur = current@;
        let ghost u0 = used as nat;
        if (used as u128) + (cw as u128) > (max_width as u128) && !current.as_str().is_empty() {
            lines.push(current);
            assert(views(lines@) =~= before.push(cur));
            current = String::new();
            push_char(&mut current, v[i]);
            assert(current@ =~= seq![v@[i as int]]);
            used = cw;
            assert(views(lines@) + width_wrap_from(v@, i + 1, current@, used as nat, max_width as nat)
                =~= before + width_wrap_from(v@, i as int, cur, u0, max_width as nat));
        } else {
            push_char(&mut current, v[i]);
            used = used + cw;
        }
        i = i + 1;
    }
    let ghost before = views(lines@);
    if !current.as_str().is_empty() {
        let ghost cur = current@;
        lines.push(current);
        assert(views(lines@) =~= before.push(cur));
    }
    if lines.len() == 0 {
        lines.push(String::new());
        assert(views(lines@) =~= seq![Seq::<char>::empty()]);
    }
    lines
}

/// One word added to the state `(lines, current line, its width)` of width-based word
/// wrapping: the current line is closed when the word does not fit beside it; a word wider
/// than the maximum is broken character by character on lines of its own.
pub open spec fn width_word_step(
    lines: Seq<Seq<char>>,
    cur: Seq<char>,
    used: nat,
    word: Seq<char>,
    max: nat,
) -> (Seq<Seq<char>>, Seq<char>, nat) {
    let ww = unicode_str_width(word) as nat;
    let sep: nat = if cur.len() == 0 {
        0
    } else {
        1
    };
    let flush = used + sep + ww > max && cur.len() > 0;
    let l1 = if flush {
        lines.push(cur)
    } else {
        lines
    };
    let c1 = if flush {
        Seq::<char>::empty()
    } else {
        cur
    };
    let n1: nat = if flush {
        0
    } else {
        used
    };
    if ww > max {
        let l2 = if c1.len() > 0 {
            l1.push(c1)
        } else {
            l1
        };
        (l2 + width_char_wrap(word, max), Seq::empty(), 0)
    } else if c1.len() > 0 {
        (l1, c1.push(' ') + word, n1 + 1 + ww)
    } else {
        (l1, word, n1 + ww)
    }
}

/// Width-based word wrapping of `words` from index `k` on, from the given state.
pub open spec fn width_word_wrap_from(
    words: Seq<Seq<char>>,
    k: int,
    lines: Seq<Seq<char>>,
    cur: Seq<char>,
    used: nat,
    max: nat,
) -> Seq<Seq<char>>
    decreases words.len() - k,
{
    if k < 0 || k >= words.len() {
        let l = if cur.len() > 0 {
            lines.push(cur)
        } else {
            lines
        };
        if l.len() == 0 {
            seq![Seq::empty()]
        } else {
            l
        }
    } else {
        let (l, c, n) = width_word_step(lines, cur, used, words[k], max);
        width_word_wrap_from(words, k + 1, l, c, n, max)
    }
}

/// What `unicode_wrap_text` gives: the text as one line for width 0; else broken between
/// words (or characters) by display width.
pub open spec fn unicode_wrap_spec(text: Seq<char>, max_width: nat, word_wrap: bool) -> Seq<Seq<char>> {
    if max_width == 0 {
        seq![text]
    } else if !word_wrap {
        width_char_wrap(text, max_width)
    } else {
        width_word_wrap_from(words_of(text), 0, Seq::empty(), Seq::empty(), 0, max_width)
    }
}

/// `text` broken into lines of at most `max_width` display columns (see `unicode_wrap_spec`).
pub fn unicode_wrap_text(text: &str, max_width: usize, word_wrap: bool) -> (res: Vec<String>)
    ensures
        views(res@) == unicode_wrap_spec(text@, max_width as nat, word_wrap),
{
    if max_width == 0 {
        let mut v: Vec<String> = Vec::new();
        v.push(owned(text));
        assert(views(v@) =~= seq![text@]);
        return v;
    }
    if !word_wrap {
        return unicode_character_wrap(text, max_width);
    }
    let words = split_whitespace(text);
    let mut lines: Vec<String> = Vec::new();
    let mut current = String::new();
    let mut used: usize = 0;
    let mut k: usize = 0;
    assert(views(lines@) =~= Seq::<Seq<char>>::empty());
    assert(current@ =~= Seq::<char>::empty());
    while k < words.len()
        invariant
            k <= words.len(),
            views(words@) == words_of(text@),
            used <= max_width,
            current@.len() == 0 ==> used == 0,
            width_word_wrap_from(views(words@), k as int, views(lines@), current@, used as nat, max_width as nat)
                == unicode_wrap_spec(text@, max_width as nat, word_wrap),
            word_wrap,
            max_width > 0,
        decreases words.len() - k,
    {
        let word = &words[k];
        assert(views(words@)[k as int] == word@);
        let ghost l0 = views(lines@);
        let ghost c0 = current@;
        let ghost n0 = used as nat;
        let ww = display_width(word.as_str());
        let sep: usize = if current.as_str().is_empty() {
            0
        } else {
            1
        };
        if (used as u128) + (sep as u128) + (ww as u128) > (max_width as u128) && !current.as_str().is_empty() {
            let ghost before = views(lines@);
            let ghost cur = current@;
            lines.push(current);
            assert(views(lines@) =~= before.push(cur));
            current = String::new();
            used = 0;
        }
        if ww > max_width {
            if !current.as_str().is_empty() {
                let ghost before = views(lines@);
                let ghost cur = current@;
                lines.push(current);
                assert(views(lines@) =~= before.push(cur));
                current = String::new();
                used = 0;
            }
            let pieces = unicode_character_wrap(word.as_str(), max_width);
            let ghost before = views(lines@);
            let mut j: usize = 0;
            while j < pieces.len()
                invariant
                    j <= pieces.len(),
                    views(lines@) == before + views(pieces@).take(j as int),
                decreases pieces.len() - j,
            {
                let piece = owned(pieces[j].as_str());
                let ghost b2 = views(lines@);
                lines.push(piece);
                assert(views(lines@) =~= b2.push(piece@));
                assert(views(lines@) =~= before + views(pieces@).take(j + 1));
                j = j + 1;
            }
            assert(views(pieces@).take(j as int) =~= views(pieces@));
        } else {
            if !current.as_str().is_empty() {
                push_char(&mut current, ' ');
                used = used + 1;
            }
            push_str(&mut current, word.as_str());
            used = used + ww;
        }
        proof {
            let (sl, sc, sn) = width_word_step(l0, c0, n0, word@, max_width as nat);
            assert(views(lines@) =~= sl);
            assert(current@ =~= sc);
            assert(used as nat == sn);
        }
        k = k + 1;
    }
    if !current.as_str().is_empty() {
        let ghost before = views(lines@);
        let ghost cur = current@;
        lines.push(current);
        assert(views(lines@) =~= before.push(cur));
    }
    if lines.len() == 0 {
        lines.push(String::new());
        assert(views(lines@) =~= seq![Seq::<char>::empty()]);
    }
    lines
}

} // verus!
