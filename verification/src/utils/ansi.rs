use crate::text::{
    chars_of, concat2, concat_all, lemma_concat_all_add, lemma_concat_all_one, concat3, nsub, owned, push_char, push_str, spaces, spaces_string,
    split_whitespace, string_from_chars, views, words_of,
};
use crate::types::Alignment;
use crate::utils::unicode::{char_width, str_width, unicode_char_width, unicode_str_width};
use vstd::prelude::*;

verus! {

/// The escape character that starts an ANSI sequence.
pub open spec fn esc() -> char {
    '\u{1b}'
}

/// A character that may stand in the parameters of a colour sequence: a digit or `;`.
pub open spec fn is_sgr_param(c: char) -> bool {
    ('0' <= c && c <= '9') || c == ';'
}

/// The number of leading parameter characters of `s`.
pub open spec fn sgr_param_run(s: Seq<char>) -> nat
    decreases s.len(),
{
    if s.len() > 0 && is_sgr_param(s[0]) {
        1 + sgr_param_run(s.drop_first())
    } else {
        0
    }
}

/// The length of the colour sequence `ESC [ params m` that `s` starts with, or 0 if it
/// starts with none.
pub open spec fn sgr_len(s: Seq<char>) -> nat {
    if s.len() >= 2 && s[0] == esc() && s[1] == '[' {
        let k = sgr_param_run(s.skip(2));
        if 2 + k < s.len() && s[2 + k as int] == 'm' {
            k + 3
        } else {
            0
        }
    } else {
        0
    }
}

/// `s` without its colour sequences `ESC [ [0-9;]* m`, found from left to right.
pub open spec fn strip_sgr(s: Seq<char>) -> Seq<char>
    decreases s.len(),
{
    if s.len() == 0 {
        Seq::empty()
    } else if sgr_len(s) > 0 {
        strip_sgr(s.skip(sgr_len(s) as int))
    } else {
        seq![s[0]] + strip_sgr(s.skip(1))
    }
}

/// The display width of `s`: the width of what is left once its colour sequences are removed.
pub open spec fn display_width(s: Seq<char>) -> nat {
    unicode_str_width(strip_sgr(s)) as nat
}

/// The length of the colour sequence that starts at `v[i]`, or 0.
fn sgr_len_at(v: &Vec<char>, i: usize) -> (res: usize)
    requires
        i <= v.len(),
    ensures
        res == sgr_len(v@.skip(i as int)),
        res > 0 ==> i + res <= v.len(),
{
    let ghost s = v@.skip(i as int);
    if v.len() - i > 1 && v[i] == '\u{1b}' && v[i + 1] == '[' {
        let mut j: usize = i + 2;
        while j < v.len() && (('0' <= v[j] && v[j] <= '9') || v[j] == ';')
            invariant
                i + 2 <= j <= v.len(),
                forall|k: int| i + 2 <= k < j ==> is_sgr_param(#[trigger] v@[k]),
            decreases v.len() - j,
        {
            j = j + 1;
        }
        proof {
            lemma_param_run(v@, i as int + 2, j as int);
            assert(s.skip(2) =~= v@.skip(i + 2));
        }
        if j < v.len() && v[j] == 'm' {
            j + 1 - i
        } else {
            0
        }
    } else {
        0
    }
}

/// The run of parameter characters that starts at `i` ends at `j`.
proof fn lemma_param_run(s: Seq<char>, i: int, j: int)
    requires
        0 <= i <= j <= s.len(),
        forall|k: int| i <= k < j ==> is_sgr_param(#[trigger] s[k]),
        j == s.len() || !is_sgr_param(s[j]),
    ensures
        sgr_param_run(s.skip(i)) == j - i,
    decreases j - i,
{
    if i < j {
        lemma_param_run(s, i + 1, j);
        assert(s.skip(i).drop_first() =~= s.skip(i + 1));
    } else if j < s.len() {
        assert(s.skip(i)[0] == s[j]);
    }
}

/// `text` without its colour sequences `ESC [ [0-9;]* m`.
pub fn strip_ansi_sequences(text: &str) -> (res: String)
    ensures
        res@ == strip_sgr(text@),
{
    let v = chars_of(text);
    let mut res = String::new();
    let mut i: usize = 0;
    assert(v@.skip(0) =~= v@);
    while i < v.len()
        invariant
            i <= v.len(),
            v@ == text@,
            res@ + strip_sgr(v@.skip(i as int)) == strip_sgr(v@),
        decreases v.len() - i,
    {
        let ghost rest = v@.skip(i as int);
        let k = sgr_len_at(&v, i);
        if k > 0 {
            assert(rest.skip(k as int) =~= v@.skip(i + k));
            i = i + k;
        } else {
            push_char(&mut res, v[i]);
            assert(rest.skip(1) =~= v@.skip(i + 1));
            assert(res@ + strip_sgr(v@.skip(i + 1)) =~= res@.drop_last() + strip_sgr(rest));
            i = i + 1;
        }
    }
    assert(v@.skip(v.len() as int) =~= Seq::<char>::empty());
    assert(res@ + Seq::<char>::empty() =~= res@);
    res
}

/// The display width of `text`, its colour sequences not counted.
pub fn calculate_display_width(text: &str) -> (res: usize)
    ensures
        res == display_width(text@),
{
    let clean = strip_ansi_sequences(text);
    str_width(clean.as_str())
}

/// A string with its display width.
#[derive(Debug, Clone, PartialEq, Eq)]
pub struct AnsiString {
    pub content: String,
    pub display_width: usize,
}

impl AnsiString {
    /// The string with its display width worked out.
    pub fn new(content: String) -> (res: AnsiString)
        ensures
            res.content@ == content@,
            res.display_width == display_width(content@),
    {
        let display_width = calculate_display_width(content.as_str());
        AnsiString { content, display_width }
    }

    /// The part of the string between display columns `start` and `end`.
    pub fn slice(&self, start: usize, end: usize) -> (res: AnsiString)
        ensures
            res.content@ == slice_spec(self.content@, start as nat, end as nat),
            res.display_width == display_width(res.content@),
    {
        slice_ansi_string(self.content.as_str(), start, end)
    }

    /// The string placed in `width` columns.
    pub fn pad_to_width(&self, width: usize, alignment: Alignment) -> (res: AnsiString)
        requires
            justify_ok(self.content@, width as nat, alignment),
        ensures
            res.content@ == pad_ansi_spec(self.content@, width as nat, alignment),
            res.display_width == display_width(res.content@),
    {
        pad_ansi_string(self.content.as_str(), width, alignment)
    }

    /// The string cut to `max_width` columns.
    pub fn truncate(&self, max_width: usize) -> (res: AnsiString)
        ensures
            res.content@ == truncate_ansi_spec(self.content@, max_width as nat),
            res.display_width == display_width(res.content@),
    {
        truncate_ansi_string(self.content.as_str(), max_width)
    }
}

/// The first index at or after `i` whose character is not in `lo..=hi`.
pub open spec fn run_in(s: Seq<char>, i: int, lo: char, hi: char) -> int
    decreases s.len() - i,
{
    if 0 <= i < s.len() && lo <= s[i] && s[i] <= hi {
        run_in(s, i + 1, lo, hi)
    } else {
        i
    }
}

/// Where the escape sequence that starts at `pos` ends: past `ESC [`, parameter bytes
/// `0x30..=0x3F`, intermediate bytes `0x20..=0x2F` and one final byte `0x40..=0x7E`; past
/// two characters for any other escape; `pos` itself if no escape starts there.
pub open spec fn ansi_end(s: Seq<char>, pos: int) -> int {
    if pos < 0 || pos >= s.len() || s[pos] != esc() {
        pos
    } else if pos + 1 >= s.len() {
        pos + 1
    } else if s[pos + 1] == '[' {
        let a = run_in(s, pos + 2, '\u{30}', '\u{3f}');
        let b = run_in(s, a, '\u{20}', '\u{2f}');
        if b < s.len() && '\u{40}' <= s[b] && s[b] <= '\u{7e}' {
            b + 1
        } else {
            b
        }
    } else {
        pos + 2
    }
}

proof fn lemma_run_in_bounds(s: Seq<char>, i: int, lo: char, hi: char)
    requires
        0 <= i <= s.len(),
    ensures
        i <= run_in(s, i, lo, hi) <= s.len(),
    decreases s.len() - i,
{
    if i < s.len() && lo <= s[i] && s[i] <= hi {
        lemma_run_in_bounds(s, i + 1, lo, hi);
    }
}

/// The end of the run of characters in `lo..=hi` that starts at `i`.
fn run_in_exec(chars: &[char], i: usize, lo: char, hi: char) -> (res: usize)
    requires
        i <= chars@.len(),
    ensures
        res == run_in(chars@, i as int, lo, hi),
        i <= res <= chars@.len(),
{
    let mut j: usize = i;
    while j < chars.len() && lo <= chars[j] && chars[j] <= hi
        invariant
            i <= j <= chars@.len(),
            run_in(chars@, j as int, lo, hi) == run_in(chars@, i as int, lo, hi),
        decreases chars@.len() - j,
    {
        j = j + 1;
    }
    j
}

/// Where the escape sequence that starts at `pos` ends (see `ansi_end`).
pub fn skip_ansi_sequence(chars: &[char], pos: usize) -> (res: usize)
    ensures
        res == ansi_end(chars@, pos as int),
{
    if pos >= chars.len() || chars[pos] != '\u{1b}' {
        return pos;
    }
    let mut p: usize = pos + 1;
    if p >= chars.len() {
        return p;
    }
    if chars[p] == '[' {
        p = run_in_exec(chars, p + 1, '\u{30}', '\u{3f}');
        p = run_in_exec(chars, p, '\u{20}', '\u{2f}');
        if p < chars.len() && chars[p] >= '\u{40}' && chars[p] <= '\u{7e}' {
            p = p + 1;
        }
    } else {
        p = p + 1;
    }
    p
}

/// An escape sequence ends after it starts.
pub proof fn lemma_ansi_end(s: Seq<char>, pos: int)
    requires
        0 <= pos < s.len(),
        s[pos] == esc(),
    ensures
        pos < ansi_end(s, pos) <= s.len(),
{
    if pos + 1 < s.len() && s[pos + 1] == '[' {
        lemma_run_in_bounds(s, pos + 2, '\u{30}', '\u{3f}');
        let a = run_in(s, pos + 2, '\u{30}', '\u{3f}');
        lemma_run_in_bounds(s, a, '\u{20}', '\u{2f}');
    }
}

/// The pieces of `s` from `i` on, with `cur` the text gathered so far: runs of text, and each
/// escape sequence on its own.
pub open spec fn split_ansi_from(s: Seq<char>, i: int, cur: Seq<char>) -> Seq<Seq<char>>
    decreases s.len() - i,
{
    if i < 0 || i >= s.len() {
        if cur.len() > 0 {
            seq![cur]
        } else {
            Seq::empty()
        }
    } else if s[i] == esc() {
        let j = ansi_end(s, i);
        if j <= i || j > s.len() {
            Seq::empty()
        } else {
            (if cur.len() > 0 {
                seq![cur]
            } else {
                Seq::<Seq<char>>::empty()
            }) + seq![s.subrange(i, j)] + split_ansi_from(s, j, Seq::empty())
        }
    } else {
        split_ansi_from(s, i + 1, cur.push(s[i]))
    }
}

/// The pieces of `text`: runs of text, and each escape sequence on its own, in order.
pub fn split_ansi_string(text: &str) -> (res: Vec<String>)
    ensures
        views(res@) == split_ansi_from(text@, 0, Seq::empty()),
{
    let chars = chars_of(text);
    let mut result: Vec<String> = Vec::new();
    let mut current = String::new();
    let mut i: usize = 0;
    while i < chars.len()
        invariant
            i <= chars.len(),
            chars@ == text@,
            views(result@) + split_ansi_from(chars@, i as int, current@) == split_ansi_from(
                chars@,
                0,
                Seq::empty(),
            ),
        decreases chars.len() - i,
    {
        if chars[i] == '\u{1b}' {
            proof {
                lemma_ansi_end(chars@, i as int);
            }
            let ghost old_i = i as int;
            let ghost before = views(result@);
            let ghost cur = current@;
            if !current.as_str().is_empty() {
                result.push(current);
                current = String::new();
            }
            let start = i;
            i = skip_ansi_sequence(chars.as_slice(), i);
            let seq_str = string_from_chars(&chars, start, i);
            result.push(seq_str);
            proof {
                if cur.len() > 0 {
                    assert(views(result@) =~= before + seq![cur] + seq![seq_str@]);
                } else {
                    assert(views(result@) =~= before + seq![seq_str@]);
                }
                assert(split_ansi_from(chars@, old_i, cur) == (if cur.len() > 0 {
                    seq![cur]
                } else {
                    Seq::<Seq<char>>::empty()
                }) + seq![chars@.subrange(old_i, i as int)] + split_ansi_from(
                    chars@,
                    i as int,
                    Seq::empty(),
                ));
                assert(current@ =~= Seq::<char>::empty());
            }
        } else {
            push_char(&mut current, chars[i]);
            i = i + 1;
        }
    }
    if !current.as_str().is_empty() {
        let ghost before = views(result@);
        result.push(current);
        assert(views(result@) =~= before + seq![current@]);
    } else {
        assert(views(result@) + Seq::<Seq<char>>::empty() =~= views(result@));
    }
    result
}

/// `a + b`, held at `usize::MAX`.
pub open spec fn sat_add(a: nat, b: nat) -> nat {
    if a + b > usize::MAX {
        usize::MAX as nat
    } else {
        a + b
    }
}

/// The width a character adds to a display position: its width, or 0 for a control.
pub open spec fn char_cols(c: char) -> nat {
    match unicode_char_width(c) {
        Some(w) => w as nat,
        None => 0,
    }
}

/// What `slice_ansi_string` keeps of `s` from index `i` on, at display position `dpos`: the
/// characters whose position is in `start..end`, and the escape sequences met while the
/// position is in that range.
pub open spec fn slice_from(s: Seq<char>, i: int, dpos: nat, start: nat, end: nat) -> Seq<char>
    decreases s.len() - i,
{
    if i < 0 || i >= s.len() {
        Seq::empty()
    } else if s[i] == esc() {
        let j = ansi_end(s, i);
        if j <= i || j > s.len() {
            Seq::empty()
        } else {
            (if start <= dpos && dpos < end {
                s.subrange(i, j)
            } else {
                Seq::empty()
            }) + slice_from(s, j, dpos, start, end)
        }
    } else {
        (if start <= dpos && dpos < end {
            seq![s[i]]
        } else {
            Seq::empty()
        }) + slice_from(s, i + 1, sat_add(dpos, char_cols(s[i])), start, end)
    }
}

/// The part of `s` between display columns `start` and `end`.
pub open spec fn slice_spec(s: Seq<char>, start: nat, end: nat) -> Seq<char> {
    if start >= end {
        Seq::empty()
    } else {
        slice_from(s, 0, 0, start, end)
    }
}

/// The part of `text` between display columns `start` and `end` (see `slice_from`).
pub fn slice_ansi_string(text: &str, start: usize, end: usize) -> (res: AnsiString)
    ensures
        res.content@ == slice_spec(text@, start as nat, end as nat),
        res.display_width == display_width(res.content@),
{
    if start >= end {
        return AnsiString::new(String::new());
    }
    let chars = chars_of(text);
    let mut result = String::new();
    let mut display_pos: usize = 0;
    let mut i: usize = 0;
    while i < chars.len()
        invariant
            i <= chars.len(),
            chars@ == text@,
            start < end,
            result@ + slice_from(chars@, i as int, display_pos as nat, start as nat, end as nat)
                == slice_from(chars@, 0, 0, start as nat, end as nat),
        decreases chars.len() - i,
    {
        let ghost before = result@;
        let ghost old_i = i as int;
        let ghost old_pos = display_pos as nat;
        if chars[i] == '\u{1b}' {
            proof {
                lemma_ansi_end(chars@, i as int);
            }
            if display_pos >= start && display_pos < end {
                let s0 = i;
                i = skip_ansi_sequence(chars.as_slice(), i);
                let piece = string_from_chars(&chars, s0, i);
                push_str(&mut result, piece.as_str());
            } else {
                i = skip_ansi_sequence(chars.as_slice(), i);
                assert(result@ + Seq::<char>::empty() =~= result@);
            }
            assert(slice_from(chars@, old_i, old_pos, start as nat, end as nat) == (if start <= old_pos
                && old_pos < end {
                chars@.subrange(old_i, i as int)
            } else {
                Seq::<char>::empty()
            }) + slice_from(chars@, i as int, old_pos, start as nat, end as nat));
        } else {
            if display_pos >= start && display_pos < end {
                push_char(&mut result, chars[i]);
            } else {
                assert(result@ + Seq::<char>::empty() =~= result@);
            }
            let w: usize = match char_width(chars[i]) {
                Some(w) => w,
                None => 0,
            };
            display_pos = display_pos.saturating_add(w);
            i = i + 1;
            assert(display_pos as nat == sat_add(old_pos, char_cols(chars@[old_i])));
        }
        assert(result@ + slice_from(chars@, i as int, display_pos as nat, start as nat, end as nat)
            =~= before + slice_from(chars@, old_i, old_pos, start as nat, end as nat));
    }
    AnsiString::new(result)
}

/// The words of `s`, with the sum of their UTF-8 byte lengths.
pub open spec fn bytes_sum(words: Seq<Seq<char>>) -> nat
    decreases words.len(),
{
    if words.len() == 0 {
        0
    } else {
        bytes_sum(words.drop_last()) + byte_len(words.last())
    }
}

/// The number of bytes of the UTF-8 encoding of `s` (what `str::len` gives).
pub open spec fn byte_len(s: Seq<char>) -> nat {
    vstd::utf8::encode_utf8(s).len()
}

/// The encoding of two strings one after another is their encodings one after another.
pub proof fn lemma_encode_concat(a: Seq<char>, b: Seq<char>)
    ensures
        vstd::utf8::encode_utf8(a + b) == vstd::utf8::encode_utf8(a) + vstd::utf8::encode_utf8(b),
    decreases a.len(),
{
    if a.len() == 0 {
        assert(a + b =~= b);
        assert(vstd::utf8::encode_utf8(a) =~= Seq::<u8>::empty());
        assert(vstd::utf8::encode_utf8(a) + vstd::utf8::encode_utf8(b) =~= vstd::utf8::encode_utf8(b));
    } else {
        lemma_encode_concat(a.drop_first(), b);
        assert((a + b).drop_first() =~= a.drop_first() + b);
        assert((a + b)[0] == a[0]);
        assert(vstd::utf8::encode_utf8(a + b) =~= vstd::utf8::encode_scalar(a[0] as u32)
            + vstd::utf8::encode_utf8(a.drop_first()) + vstd::utf8::encode_utf8(b));
    }
}

/// Byte lengths add up over concatenation.
pub proof fn lemma_byte_len_concat(a: Seq<char>, b: Seq<char>)
    ensures
        byte_len(a + b) == byte_len(a) + byte_len(b),
{
    lemma_encode_concat(a, b);
}

/// The byte sum of a word followed by more words.
pub proof fn lemma_bytes_sum_cons(x: Seq<char>, ws: Seq<Seq<char>>)
    ensures
        bytes_sum(seq![x] + ws) == byte_len(x) + bytes_sum(ws),
    decreases ws.len(),
{
    if ws.len() == 0 {
        assert(seq![x] + ws =~= seq![x]);
        assert(seq![x].drop_last() =~= Seq::<Seq<char>>::empty());
        assert(bytes_sum(seq![x]) == bytes_sum(Seq::<Seq<char>>::empty()) + byte_len(x));
    } else {
        lemma_bytes_sum_cons(x, ws.drop_last());
        assert((seq![x] + ws).drop_last() =~= seq![x] + ws.drop_last());
        assert((seq![x] + ws).last() == ws.last());
    }
}

/// The words of a string take no more bytes than the string.
pub proof fn lemma_words_bytes(s: Seq<char>)
    ensures
        bytes_sum(words_of(s)) <= byte_len(s),
    decreases s.len(),
{
    if s.len() == 0 {
    } else if crate::text::is_whitespace(s[0]) {
        lemma_words_bytes(s.drop_first());
        assert(s =~= seq![s[0]] + s.drop_first());
        lemma_byte_len_concat(seq![s[0]], s.drop_first());
    } else {
        let e = crate::text::span_len(s, |c: char| crate::text::not_whitespace(c));
        if e < s.len() {
            lemma_words_bytes(s.skip(e as int));
            assert(s =~= s.take(e as int) + s.skip(e as int));
            lemma_byte_len_concat(s.take(e as int), s.skip(e as int));
            lemma_bytes_sum_cons(s.take(e as int), words_of(s.skip(e as int)));
        } else {
            assert(seq![s].drop_last() =~= Seq::<Seq<char>>::empty());
            assert(bytes_sum(seq![s]) == bytes_sum(Seq::<Seq<char>>::empty()) + byte_len(s));
        }
    }
}

/// Whether justifying `text` to `width` can be done: its words' bytes fit in the width.
pub open spec fn justify_ansi_fits(text: Seq<char>, width: nat) -> bool {
    words_of(strip_sgr(text)).len() <= 1 || bytes_sum(words_of(strip_sgr(text))) <= width
}

/// The text of the first pieces of `segs` up to and including the first one that does not
/// start an escape sequence, with how many pieces that is.
pub open spec fn take_through_text(segs: Seq<Seq<char>>) -> (Seq<char>, nat)
    decreases segs.len(),
{
    if segs.len() == 0 {
        (Seq::empty(), 0)
    } else if segs[0].len() > 0 && segs[0][0] == esc() {
        let (t, n) = take_through_text(segs.drop_first());
        (segs[0] + t, n + 1)
    } else {
        (segs[0], 1)
    }
}

/// For each of `k` remaining words (gap index `gi`), the pieces of `segs` through the next
/// text piece, then the gap's spaces if it is not the last word.
pub open spec fn justify_pieces(
    segs: Seq<Seq<char>>,
    k: nat,
    gi: nat,
    per: nat,
    extra: nat,
) -> Seq<char>
    decreases k,
{
    if k == 0 {
        Seq::empty()
    } else {
        let (t, n) = take_through_text(segs);
        t + (if k > 1 {
            spaces(per + if gi < extra { 1nat } else { 0nat })
        } else {
            Seq::empty()
        }) + justify_pieces(segs.skip(n as int), (k - 1) as nat, gi + 1, per, extra)
    }
}

/// What the justify step of `pad_ansi_string` gives: for each word of the visible text, the
/// pieces of `text` up to the next text run, then the gap's spaces; `text` when it has fewer
/// than two words.
pub open spec fn justify_ansi_spec(text: Seq<char>, width: nat) -> Seq<char> {
    let words = words_of(strip_sgr(text));
    if words.len() <= 1 {
        text
    } else {
        let total = nsub(width, bytes_sum(words));
        let gaps = (words.len() - 1) as nat;
        justify_pieces(split_ansi_from(text, 0, Seq::empty()), words.len(), 0, total / gaps, total % gaps)
    }
}

proof fn lemma_take_through_bound(segs: Seq<Seq<char>>)
    ensures
        take_through_text(segs).1 <= segs.len(),
        segs.len() > 0 ==> take_through_text(segs).1 >= 1,
    decreases segs.len(),
{
    if segs.len() > 0 && segs[0].len() > 0 && segs[0][0] == esc() {
        lemma_take_through_bound(segs.drop_first());
    }
}

/// The sum of the byte lengths of `words`.
pub(crate) fn sum_word_bytes(words: &Vec<String>, bound: usize) -> (res: usize)
    requires
        bytes_sum(views(words@)) <= bound,
    ensures
        res == bytes_sum(views(words@)),
{
    let mut total: usize = 0;
    let mut i: usize = 0;
    while i < words.len()
        invariant
            i <= words.len(),
            bytes_sum(views(words@)) <= bound,
            total == bytes_sum(views(words@).take(i as int)),
        decreases words.len() - i,
    {
        proof {
            lemma_bytes_sum_prefix(views(words@), i as int + 1);
            assert(views(words@).take(i + 1).drop_last() =~= views(words@).take(i as int));
        }
        total = total + words[i].as_str().len();
        i = i + 1;
    }
    assert(views(words@).take(words.len() as int) =~= views(words@));
    total
}

proof fn lemma_bytes_sum_prefix(words: Seq<Seq<char>>, k: int)
    requires
        0 <= k <= words.len(),
    ensures
        bytes_sum(words.take(k)) <= bytes_sum(words),
    decreases words.len() - k,
{
    if k < words.len() {
        lemma_bytes_sum_prefix(words, k + 1);
        assert(words.take(k + 1).drop_last() =~= words.take(k));
    } else {
        assert(words.take(k) =~= words);
    }
}

/// Spreads the words of `text` over `width` columns, keeping its escape sequences.
fn justify_text(text: &str, width: usize) -> (res: String)
    requires
        justify_ansi_fits(text@, width as nat),
    ensures
        res@ == justify_ansi_spec(text@, width as nat),
{
    let clean = strip_ansi_sequences(text);
    let words = split_whitespace(clean.as_str());
    if words.len() <= 1 {
        return owned(text);
    }
    let total_chars = sum_word_bytes(&words, width);
    let total_spaces: usize = width - total_chars;
    let gaps: usize = words.len() - 1;
    let per: usize = total_spaces / gaps;
    let extra: usize = total_spaces % gaps;
    proof {
        if extra > 0 {
            assert(per * 2 <= total_spaces) by (nonlinear_arith)
                requires per == total_spaces / gaps, gaps >= 2;
        }
    }
    let segs = split_ansi_string(text);
    let mut result = String::new();
    let mut seg_idx: usize = 0;
    let mut i: usize = 0;
    let n = words.len();
    assert(views(segs@).skip(0) =~= views(segs@));
    while i < n
        invariant
            i <= n == words.len(),
            n >= 2,
            seg_idx <= segs.len(),
            extra == 0 || per < usize::MAX,
            result@ + justify_pieces(
                views(segs@).skip(seg_idx as int),
                (n - i) as nat,
                i as nat,
                per as nat,
                extra as nat,
            ) == justify_pieces(views(segs@), n as nat, 0, per as nat, extra as nat),
        decreases n - i,
    {
        let ghost rest = views(segs@).skip(seg_idx as int);
        let ghost before = result@;
        let ghost start_idx = seg_idx;
        proof {
            lemma_take_through_bound(rest);
        }
        let mut acc = String::new();
        loop
            invariant_except_break
                acc@ + take_through_text(views(segs@).skip(seg_idx as int)).0 == take_through_text(
                    rest,
                ).0,
                (seg_idx - start_idx) + take_through_text(views(segs@).skip(seg_idx as int)).1
                    == take_through_text(rest).1,
            invariant
                start_idx <= seg_idx <= segs.len(),
                rest == views(segs@).skip(start_idx as int),
            ensures
                acc@ == take_through_text(rest).0,
                seg_idx - start_idx == take_through_text(rest).1,
            decreases segs.len() - seg_idx,
        {
            if seg_idx >= segs.len() {
                assert(views(segs@).skip(seg_idx as int) =~= Seq::<Seq<char>>::empty());
                assert(acc@ + Seq::<char>::empty() =~= acc@);
                break;
            }
            let ghost here = views(segs@).skip(seg_idx as int);
            let seg = &segs[seg_idx];
            let starts_esc = crate::text::str_starts_with_char(seg.as_str(), '\u{1b}');
            push_str(&mut acc, seg.as_str());
            seg_idx = seg_idx + 1;
            assert(here.drop_first() =~= views(segs@).skip(seg_idx as int));
            if !starts_esc {
                break;
            }
        }
        push_str(&mut result, acc.as_str());
        if i < n - 1 {
            let spaces_count: usize = if i < extra { per + 1 } else { per };
            push_str(&mut result, spaces_string(spaces_count).as_str());
        }
        i = i + 1;
        proof {
            if i < n {
                assert(result@ =~= before + take_through_text(rest).0 + spaces(
                    per as nat + if ((i - 1) as nat) < extra { 1nat } else { 0nat },
                ));
            } else {
                assert(result@ =~= before + take_through_text(rest).0);
            }
            assert(rest.skip(take_through_text(rest).1 as int) =~= views(segs@).skip(
                seg_idx as int,
            ));
        }
    }
    assert(result@ + Seq::<char>::empty() =~= result@);
    result
}

/// Whether placing `text` in `width` columns with `alignment` can be done: when its words are
/// spread out, their bytes fit in the width.
pub open spec fn justify_ok(text: Seq<char>, width: nat, alignment: Alignment) -> bool {
    alignment == Alignment::Justify && display_width(text) < width ==> justify_ansi_fits(
        text,
        width,
    )
}

/// `text` placed in `width` display columns: padded with spaces on the side(s) that
/// `alignment` says, or its words spread out for `Justify`; unchanged when it is already at
/// least that wide.
pub open spec fn pad_ansi_spec(text: Seq<char>, width: nat, alignment: Alignment) -> Seq<char> {
    let w = display_width(text);
    if w >= width {
        text
    } else {
        let p = (width - w) as nat;
        match alignment {
            Alignment::Left => text + spaces(p),
            Alignment::Right => spaces(p) + text,
            Alignment::Center => spaces(p / 2) + text + spaces((p - p / 2) as nat),
            Alignment::Justify => justify_ansi_spec(text, width),
        }
    }
}

/// `text` placed in `width` display columns (see `pad_ansi_spec`).
pub fn pad_ansi_string(text: &str, width: usize, alignment: Alignment) -> (res: AnsiString)
    requires
        justify_ok(text@, width as nat, alignment),
    ensures
        res.content@ == pad_ansi_spec(text@, width as nat, alignment),
        res.display_width == display_width(res.content@),
{
    let dw = calculate_display_width(text);
    if dw >= width {
        return AnsiString::new(owned(text));
    }
    let padding: usize = width - dw;
    let result = match alignment {
        Alignment::Left => concat2(text, spaces_string(padding).as_str()),
        Alignment::Right => concat2(spaces_string(padding).as_str(), text),
        Alignment::Center => {
            let left: usize = padding / 2;
            let right: usize = padding - left;
            concat3(spaces_string(left).as_str(), text, spaces_string(right).as_str())
        },
        Alignment::Justify => justify_text(text, width),
    };
    AnsiString::new(result)
}

/// `text` cut to `max_width` display columns: unchanged if it fits; the first `max_width`
/// columns when there is no room for `...`; else the first `max_width - 3` columns and `...`.
pub open spec fn truncate_ansi_spec(text: Seq<char>, max_width: nat) -> Seq<char> {
    if display_width(text) <= max_width {
        text
    } else if max_width <= 3 {
        slice_spec(text, 0, max_width)
    } else {
        slice_spec(text, 0, (max_width - 3) as nat) + "..."@
    }
}

/// `text` cut to `max_width` display columns (see `truncate_ansi_spec`).
pub fn truncate_ansi_string(text: &str, max_width: usize) -> (res: AnsiString)
    ensures
        res.content@ == truncate_ansi_spec(text@, max_width as nat),
        res.display_width == display_width(res.content@),
{
    let dw = calculate_display_width(text);
    if dw <= max_width {
        return AnsiString::new(owned(text));
    }
    if max_width <= 3 {
        return slice_ansi_string(text, 0, max_width);
    }
    let truncated = slice_ansi_string(text, 0, max_width - 3);
    AnsiString::new(concat2(truncated.content.as_str(), "..."))
}

/// Whether the words of `text` (colour sequences removed) can be spread over `width` columns:
/// there is at most one, or their bytes fit.
pub fn justify_fits(text: &str, width: usize) -> (res: bool)
    ensures
        res == justify_ansi_fits(text@, width as nat),
{
    let clean = strip_ansi_sequences(text);
    let words = split_whitespace(clean.as_str());
    if words.len() <= 1 {
        return true;
    }
    let mut total: usize = 0;
    let mut i: usize = 0;
    while i < words.len()
        invariant
            i <= words.len(),
            total == bytes_sum(views(words@).take(i as int)),
            total <= width,
            words.len() > 1,
            views(words@) == words_of(strip_sgr(text@)),
        decreases words.len() - i,
    {
        proof {
            lemma_bytes_sum_prefix(views(words@), i + 1);
            assert(views(words@).take(i + 1).drop_last() =~= views(words@).take(i as int));
        }
        let b = words[i].as_str().as_bytes().len();
        assert(b == byte_len(views(words@)[i as int]));
        assert(bytes_sum(views(words@).take(i + 1)) == total + b);
        if b > width - total {
            return false;
        }
        total = total + b;
        i = i + 1;
    }
    assert(views(words@).take(i as int) =~= views(words@));
    true
}

/// `text` placed in `width` display columns (see `pad_ansi_spec`), or `None` when its words
/// would be spread out but do not fit.
pub fn try_pad_ansi_string(text: &str, width: usize, alignment: Alignment) -> (res: Option<
    AnsiString,
>)
    ensures
        res is Some <==> justify_ok(text@, width as nat, alignment),
        res matches Some(a) ==> a.content@ == pad_ansi_spec(text@, width as nat, alignment)
            && a.display_width == display_width(a.content@),
{
    if alignment == Alignment::Justify && calculate_display_width(text) < width && !justify_fits(
        text,
        width,
    ) {
        return None;
    }
    Some(AnsiString::new(owned(text)).pad_to_width(width, alignment))
}


/// The pieces that `split_ansi_string` gives, put back one after another, are the text it was
/// given.
pub proof fn law_split_ansi_concat(s: Seq<char>)
    ensures
        concat_all(split_ansi_from(s, 0, Seq::empty())) == s,
{
    lemma_split_concat(s, 0, Seq::empty());
    assert(Seq::<char>::empty() + s.subrange(0, s.len() as int) =~= s);
}

proof fn lemma_split_concat(s: Seq<char>, i: int, cur: Seq<char>)
    requires
        0 <= i <= s.len(),
    ensures
        concat_all(split_ansi_from(s, i, cur)) == cur + s.subrange(i, s.len() as int),
    decreases s.len() - i,
{
    if i >= s.len() {
        assert(s.subrange(i, s.len() as int) =~= Seq::<char>::empty());
        assert(cur + s.subrange(i, s.len() as int) =~= cur);
        if cur.len() > 0 {
            lemma_concat_all_one(cur);
        }
    } else if s[i] == esc() {
        lemma_ansi_end(s, i);
        let j = ansi_end(s, i);
        lemma_split_concat(s, j, Seq::empty());
        let front = if cur.len() > 0 {
            seq![cur]
        } else {
            Seq::<Seq<char>>::empty()
        };
        lemma_concat_all_add(front + seq![s.subrange(i, j)], split_ansi_from(s, j, Seq::empty()));
        lemma_concat_all_add(front, seq![s.subrange(i, j)]);
        lemma_concat_all_one(s.subrange(i, j));
        if cur.len() > 0 {
            lemma_concat_all_one(cur);
        }
        assert(concat_all(front) == cur);
        assert(cur + s.subrange(i, j) + (Seq::<char>::empty() + s.subrange(j, s.len() as int)) =~= cur
            + s.subrange(i, s.len() as int));
    } else {
        lemma_split_concat(s, i + 1, cur.push(s[i]));
        assert(cur.push(s[i]) + s.subrange(i + 1, s.len() as int) =~= cur + s.subrange(i, s.len() as int));
    }
}

} // verus!
