use crate::text::{
    concat2, concat3, concat_all, nsub, owned, push_str, spaces, spaces_string, split_whitespace, spread,
    spread_words, views, words_of,
};
use crate::types::Alignment;
use unicode_segmentation::UnicodeSegmentation;
use unicode_width::{UnicodeWidthChar, UnicodeWidthStr};
use vstd::prelude::*;

verus! {

/// The display width that `UnicodeWidthStr::width` gives a string (from Unicode tables and
/// rules over neighbouring characters).
pub uninterp spec fn unicode_str_width(s: Seq<char>) -> usize;

/// The display width that `UnicodeWidthChar::width` gives a character, `None` for controls.
pub uninterp spec fn unicode_char_width(c: char) -> Option<usize>;

/// The grapheme clusters that `UnicodeSegmentation::graphemes(s, true)` splits `s` into.
pub uninterp spec fn grapheme_clusters(s: Seq<char>) -> Seq<Seq<char>>;

/// A printable ASCII character, `' '` to `'~'`.
pub open spec fn is_printable_ascii(c: char) -> bool {
    ' ' <= c && c <= '~'
}

/// `UnicodeWidthStr::width`. The result is named; the source shows that the empty string has
/// width 0 and that a string of printable ASCII characters is as wide as it is long. What it
/// gives other strings (ligatures, emoji sequences, combining marks) is left to the name.
#[verifier::external_body]
pub(crate) fn str_width(s: &str) -> (res: usize)
    ensures
        res == unicode_str_width(s@),
        s@.len() == 0 ==> res == 0,
        (forall|i: int| 0 <= i < s@.len() ==> is_printable_ascii(#[trigger] s@[i])) ==> res
            == s@.len(),
{
    UnicodeWidthStr::width(s)
}

/// `UnicodeWidthChar::width`. The result is named; the source shows that printable ASCII
/// characters have width 1, that the C0 and C1 control characters have none, and that no
/// character is wider than 3.
#[verifier::external_body]
pub(crate) fn char_width(c: char) -> (res: Option<usize>)
    ensures
        res == unicode_char_width(c),
        is_printable_ascii(c) ==> res == Some(1usize),
        (c < ' ' || ('\u{7f}' <= c && c < '\u{a0}')) ==> res is None,
        res matches Some(w) ==> w <= 3,
{
    UnicodeWidthChar::width(c)
}

/// `UnicodeSegmentation::graphemes(s, true)`, collected. The clusters are named; the
/// documentation shows that they are non-empty and together make up `s`.
#[verifier::external_body]
pub(crate) fn graphemes(s: &str) -> (res: Vec<String>)
    ensures
        views(res@) == grapheme_clusters(s@),
        concat_all(views(res@)) == s@,
        forall|i: int| 0 <= i < res@.len() ==> #[trigger] res@[i]@.len() > 0,
{
    s.graphemes(true).map(|g| g.to_string()).collect()
}

/// The display width of `text`.
pub fn calculate_string_width(text: &str) -> (res: usize)
    ensures
        res == unicode_str_width(text@),
{
    str_width(text)
}

/// The number of grapheme clusters in `text`.
pub fn calculate_grapheme_width(text: &str) -> (res: usize)
    ensures
        res == grapheme_clusters(text@).len(),
{
    graphemes(text).len()
}

/// The clusters that fit, one after another, from the front, while their widths add up to at
/// most `max`.
pub open spec fn fit_clusters(gs: Seq<Seq<char>>, used: nat, max: nat) -> Seq<char>
    decreases gs.len(),
{
    if gs.len() == 0 {
        Seq::empty()
    } else {
        let w = unicode_str_width(gs[0]) as nat;
        if used + w > max {
            Seq::empty()
        } else {
            gs[0] + fit_clusters(gs.drop_first(), used + w, max)
        }
    }
}

/// What `truncate_string` gives.
pub open spec fn truncate_string_spec(text: Seq<char>, max_width: nat) -> Seq<char> {
    if unicode_str_width(text) <= max_width {
        text
    } else {
        fit_clusters(grapheme_clusters(text), 0, max_width)
    }
}

/// `text` unchanged if it fits in `max_width` columns, else the longest run of its grapheme
/// clusters from the front whose widths add up to at most `max_width`.
pub fn truncate_string(text: &str, max_width: usize) -> (res: String)
    ensures
        res@ == truncate_string_spec(text@, max_width as nat),
{
    let width = calculate_string_width(text);
    if width <= max_width {
        return owned(text);
    }
    let gs = graphemes(text);
    let mut result = String::new();
    let mut current_width: usize = 0;
    let mut i: usize = 0;
    assert(views(gs@).skip(0) =~= views(gs@));
    while i < gs.len()
        invariant
            i <= gs.len(),
            current_width <= max_width,
            views(gs@) == grapheme_clusters(text@),
            result@ + fit_clusters(views(gs@).skip(i as int), current_width as nat, max_width as nat)
                == fit_clusters(grapheme_clusters(text@), 0, max_width as nat),
        ensures
            result@ == fit_clusters(grapheme_clusters(text@), 0, max_width as nat),
        decreases gs.len() - i,
    {
        let g = &gs[i];
        let gw = str_width(g.as_str());
        assert(views(gs@).skip(i as int)[0] == g@);
        if gw > max_width - current_width {
            assert(fit_clusters(views(gs@).skip(i as int), current_width as nat, max_width as nat)
                =~= Seq::<char>::empty());
            assert(result@ + Seq::<char>::empty() =~= result@);
            break;
        }
        push_str(&mut result, g.as_str());
        current_width = current_width + gw;
        assert(views(gs@).skip(i as int).drop_first() =~= views(gs@).skip(i + 1));
        i = i + 1;
        if i == gs.len() {
            assert(views(gs@).skip(i as int) =~= Seq::<Seq<char>>::empty());
            assert(result@ + Seq::<char>::empty() =~= result@);
        }
    }
    result
}

/// `text` placed in `width` columns: padded with spaces on the side(s) that `alignment` says,
/// or spread out word by word for `Justify`; unchanged when it is at least that wide.
pub open spec fn pad_string_spec(text: Seq<char>, width: nat, alignment: Alignment) -> Seq<char> {
    let w = unicode_str_width(text) as nat;
    if w >= width {
        text
    } else {
        let p = (width - w) as nat;
        match alignment {
            Alignment::Left => text + spaces(p),
            Alignment::Right => spaces(p) + text,
            Alignment::Center => spaces(p / 2) + text + spaces((p - p / 2) as nat),
            Alignment::Justify => justify_string_spec(text, width),
        }
    }
}

/// The sum of the display widths of the words.
pub open spec fn widths_sum(words: Seq<Seq<char>>) -> nat
    decreases words.len(),
{
    if words.len() == 0 {
        0
    } else {
        widths_sum(words.drop_last()) + unicode_str_width(words.last()) as nat
    }
}

/// Whether justifying `text` to `width` can be done: the words fit in the width.
pub open spec fn justify_fits(text: Seq<char>, width: nat) -> bool {
    words_of(text).len() <= 1 || widths_sum(words_of(text)) <= width
}

/// The words of `text` spread over `width` columns: the spare columns shared among the gaps,
/// the first gaps one wider; `text` itself when it has fewer than two words.
pub open spec fn justify_string_spec(text: Seq<char>, width: nat) -> Seq<char> {
    let words = words_of(text);
    if words.len() <= 1 {
        text
    } else {
        let total = nsub(width, widths_sum(words));
        let gaps = (words.len() - 1) as nat;
        spread(words, total / gaps, total % gaps)
    }
}

/// The sum of the display widths of `words`.
pub fn sum_word_widths(words: &Vec<String>, bound: usize) -> (res: usize)
    requires
        widths_sum(views(words@)) <= bound,
    ensures
        res == widths_sum(views(words@)),
{
    let mut total: usize = 0;
    let mut i: usize = 0;
    while i < words.len()
        invariant
            i <= words.len(),
            widths_sum(views(words@)) <= bound,
            total == widths_sum(views(words@).take(i as int)),
        decreases words.len() - i,
    {
        proof {
            lemma_widths_sum_prefix(views(words@), i as int + 1);
            assert(views(words@).take(i + 1).drop_last() =~= views(words@).take(i as int));
        }
        total = total + str_width(words[i].as_str());
        i = i + 1;
    }
    assert(views(words@).take(words.len() as int) =~= views(words@));
    total
}

/// The widths of a prefix add up to at most the widths of the whole.
pub proof fn lemma_widths_sum_prefix(words: Seq<Seq<char>>, k: int)
    requires
        0 <= k <= words.len(),
    ensures
        widths_sum(words.take(k)) <= widths_sum(words),
    decreases words.len() - k,
{
    if k < words.len() {
        lemma_widths_sum_prefix(words, k + 1);
        assert(words.take(k + 1).drop_last() =~= words.take(k));
    } else {
        assert(words.take(k) =~= words);
    }
}

/// The words of `text` spread over `width` columns (see `justify_string_spec`).
pub fn justify_string(text: &str, width: usize) -> (res: String)
    requires
        justify_fits(text@, width as nat),
    ensures
        res@ == justify_string_spec(text@, width as nat),
{
    let words = split_whitespace(text);
    if words.len() <= 1 {
        return owned(text);
    }
    let total_chars = sum_word_widths(&words, width);
    let total_spaces: usize = width - total_chars;
    let gaps: usize = words.len() - 1;
    let per: usize = total_spaces / gaps;
    let extra: usize = total_spaces % gaps;
    proof {
        if extra > 0 {
            assert(gaps >= 2);
            assert(per * 2 <= total_spaces) by (nonlinear_arith)
                requires per == total_spaces / gaps, gaps >= 2;
        }
    }
    spread_words(&words, per, extra)
}

/// `text` placed in `width` columns (see `pad_string_spec`).
pub fn pad_string(text: &str, width: usize, alignment: Alignment) -> (res: String)
    requires
        alignment == Alignment::Justify ==> justify_fits(text@, width as nat),
    ensures
        res@ == pad_string_spec(text@, width as nat, alignment),
{
    let current_width = calculate_string_width(text);
    if current_width >= width {
        return owned(text);
    }
    let padding: usize = width - current_width;
    match alignment {
        Alignment::Left => concat2(text, spaces_string(padding).as_str()),
        Alignment::Right => concat2(spaces_string(padding).as_str(), text),
        Alignment::Center => {
            let left: usize = padding / 2;
            let right: usize = padding - left;
            concat3(spaces_string(left).as_str(), text, spaces_string(right).as_str())
        },
        Alignment::Justify => justify_string(text, width),
    }
}

} // verus!
