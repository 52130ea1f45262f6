pub mod examples;

use crate::alignment::Alignment;
use crate::border::BorderChars;
use crate::renderer::RenderOptions;
use crate::table_data::{
    column_count_of, first_bad_row, plain_line, plain_line_spec, row_length_msg, validate_table_data, TableData,
};
use crate::text::{
    chars_of, concat2, concat3, concat_all, owned, push_char, push_str, spaces, spaces_string,
    string_from_chars, views,
};
use crate::types::Row;
use crate::unicode::char_display_width;
use crate::utils::ansi::char_cols;
use crate::utils::formatting::table_view;
use vstd::prelude::*;
use vstd::utf8::{decode_utf8, encode_utf8, is_char_boundary};

verus! {

/// How wide emoji and other characters are taken to be.
#[derive(Debug, Clone)]
pub struct EmojiConfig {
    pub use_unicode_width: bool,
    pub emoji_width: usize,
    pub variation_selector_width: usize,
    pub zero_width_joiner_aware: bool,
    pub regional_indicator_width: usize,
    pub custom_widths: Vec<(String, usize)>,
}

/// The settings of an `EmojiConfig`, with texts as character sequences.
pub struct EmojiSettings {
    pub use_unicode_width: bool,
    pub emoji_width: usize,
    pub variation_selector_width: usize,
    pub zero_width_joiner_aware: bool,
    pub regional_indicator_width: usize,
    pub custom_widths: Seq<(Seq<char>, usize)>,
}

impl View for EmojiConfig {
    type V = EmojiSettings;

    open spec fn view(&self) -> EmojiSettings {
        EmojiSettings {
            use_unicode_width: self.use_unicode_width,
            emoji_width: self.emoji_width,
            variation_selector_width: self.variation_selector_width,
            zero_width_joiner_aware: self.zero_width_joiner_aware,
            regional_indicator_width: self.regional_indicator_width,
            custom_widths: self.custom_widths@.map_values(|p: (String, usize)| (p.0@, p.1)),
        }
    }
}

/// The default settings: widths from the Unicode tables, emoji 2 wide, variation selectors
/// 0, joined sequences as one emoji, flags 2 wide, no custom widths.
pub open spec fn default_emoji() -> EmojiSettings {
    EmojiSettings {
        use_unicode_width: true,
        emoji_width: 2,
        variation_selector_width: 0,
        zero_width_joiner_aware: true,
        regional_indicator_width: 2,
        custom_widths: Seq::empty(),
    }
}

/// The first custom width given for a text.
pub open spec fn custom_from(c: Seq<(Seq<char>, usize)>, q: Seq<char>, i: int) -> Option<usize>
    decreases c.len() - i,
{
    if i < 0 || i >= c.len() {
        None
    } else if c[i].0 == q {
        Some(c[i].1)
    } else {
        custom_from(c, q, i + 1)
    }
}

/// The custom width given for a text, if any.
pub open spec fn custom_width(c: EmojiSettings, q: Seq<char>) -> Option<usize> {
    custom_from(c.custom_widths, q, 0)
}

impl Default for EmojiConfig {
    fn default() -> (res: Self)
        ensures
            res@ == default_emoji(),
    {
        let res = EmojiConfig {
            use_unicode_width: true,
            emoji_width: 2,
            variation_selector_width: 0,
            zero_width_joiner_aware: true,
            regional_indicator_width: 2,
            custom_widths: Vec::new(),
        };
        assert(res@.custom_widths =~= Seq::<(Seq<char>, usize)>::empty());
        res
    }
}

impl EmojiConfig {
    /// The default settings.
    pub fn new() -> (res: Self)
        ensures
            res@ == default_emoji(),
    {
        Self::default()
    }

    /// The same settings with another emoji width.
    pub fn with_emoji_width(self, width: usize) -> (res: Self)
        ensures
            res@ == (EmojiSettings { emoji_width: width, ..self@ }),
    {
        EmojiConfig { emoji_width: width, ..self }
    }

    /// The same settings with another flag width.
    pub fn with_regional_indicator_width(self, width: usize) -> (res: Self)
        ensures
            res@ == (EmojiSettings { regional_indicator_width: width, ..self@ }),
    {
        EmojiConfig { regional_indicator_width: width, ..self }
    }

    /// The same settings, joined sequences seen as one emoji or not.
    pub fn with_zwj_awareness(self, aware: bool) -> (res: Self)
        ensures
            res@ == (EmojiSettings { zero_width_joiner_aware: aware, ..self@ }),
    {
        EmojiConfig { zero_width_joiner_aware: aware, ..self }
    }

    /// The same settings with a custom width for a text: it replaces the width given for the
    /// same text, or is added after the others.
    pub fn with_custom_width(self, emoji: &str, width: usize) -> (res: Self)
        ensures
            res@.use_unicode_width == self@.use_unicode_width,
            res@.emoji_width == self@.emoji_width,
            res@.variation_selector_width == self@.variation_selector_width,
            res@.zero_width_joiner_aware == self@.zero_width_joiner_aware,
            res@.regional_indicator_width == self@.regional_indicator_width,
            custom_width(res@, emoji@) == Some(width),
            forall|q: Seq<char>| q != emoji@ ==> #[trigger] custom_width(res@, q) == custom_width(self@, q),
    {
        let mut s = self;
        let ghost c0 = s@.custom_widths;
        let mut i: usize = 0;
        while i < s.custom_widths.len()
            invariant
                i <= s.custom_widths@.len(),
                s@.custom_widths == c0,
                forall|k: int| 0 <= k < i ==> c0[k].0 != emoji@,
                s@.use_unicode_width == self@.use_unicode_width,
                s@.emoji_width == self@.emoji_width,
                s@.variation_selector_width == self@.variation_selector_width,
                s@.zero_width_joiner_aware == self@.zero_width_joiner_aware,
                s@.regional_indicator_width == self@.regional_indicator_width,
                c0 == self@.custom_widths,
            decreases s.custom_widths.len() - i,
        {
            if crate::text::str_eq(s.custom_widths[i].0.as_str(), emoji) {
                let key = owned(emoji);
                s.custom_widths.set(i, (key, width));
                proof {
                    let c1 = s@.custom_widths;
                    assert(c1 =~= c0.update(i as int, (emoji@, width)));
                    lemma_custom_prefix(c0, c1, emoji@, i as int);
                    assert forall|q: Seq<char>| q != emoji@ implies #[trigger] custom_width(s@, q) == custom_width(self@, q) by {
                        lemma_custom_update(c0, c1, emoji@, q, i as int);
                    }
                }
                return s;
            }
            assert(c0[i as int].0 == s.custom_widths@[i as int].0@);
            i = i + 1;
        }
        s.custom_widths.push((owned(emoji), width));
        proof {
            let c1 = s@.custom_widths;
            assert(c1 =~= c0.push((emoji@, width)));
            lemma_custom_push(c0, emoji@, width);
        }
        s
    }

    /// The same settings with widths not taken from the Unicode tables.
    pub fn without_unicode_width(self) -> (res: Self)
        ensures
            res@ == (EmojiSettings { use_unicode_width: false, ..self@ }),
    {
        EmojiConfig { use_unicode_width: false, ..self }
    }

    /// For terminals: emoji and flags 2 wide, joined sequences as one emoji.
    pub fn terminal() -> (res: Self)
        ensures
            res@ == default_emoji(),
    {
        Self::new().with_emoji_width(2).with_regional_indicator_width(2).with_zwj_awareness(true)
    }

    /// For monospace fonts: emoji and flags 2 wide, other characters 1 (ASCII) or 2 wide.
    pub fn monospace() -> (res: Self)
        ensures
            res@ == (EmojiSettings { use_unicode_width: false, ..default_emoji() }),
    {
        Self::new().with_emoji_width(2).with_regional_indicator_width(2).without_unicode_width()
    }

    /// For web pages: emoji and flags 1 wide.
    pub fn web() -> (res: Self)
        ensures
            res@ == (EmojiSettings { emoji_width: 1, regional_indicator_width: 1, ..default_emoji() }),
    {
        Self::new().with_emoji_width(1).with_regional_indicator_width(1)
    }

    /// The safe side: emoji 2 wide, flags 4 wide.
    pub fn conservative() -> (res: Self)
        ensures
            res@ == (EmojiSettings { emoji_width: 2, regional_indicator_width: 4, ..default_emoji() }),
    {
        Self::new().with_emoji_width(2).with_regional_indicator_width(4)
    }

    /// A copy of the settings.
    pub fn duplicate(&self) -> (res: Self)
        ensures
            res@ == self@,
    {
        let mut c: Vec<(String, usize)> = Vec::new();
        let mut i: usize = 0;
        while i < self.custom_widths.len()
            invariant
                i <= self.custom_widths@.len(),
                c@.len() == i,
                forall|k: int| 0 <= k < i ==> (#[trigger] c@[k]).0@ == self.custom_widths@[k].0@ && c@[k].1
                    == self.custom_widths@[k].1,
            decreases self.custom_widths.len() - i,
        {
            let key = owned(self.custom_widths[i].0.as_str());
            c.push((key, self.custom_widths[i].1));
            i = i + 1;
        }
        let res = EmojiConfig {
            use_unicode_width: self.use_unicode_width,
            emoji_width: self.emoji_width,
            variation_selector_width: self.variation_selector_width,
            zero_width_joiner_aware: self.zero_width_joiner_aware,
            regional_indicator_width: self.regional_indicator_width,
            custom_widths: c,
        };
        assert(res@.custom_widths =~= self@.custom_widths);
        res
    }
}
/// The lookup in a list of custom widths stops at the first entry that matches.
proof fn lemma_custom_first(c: Seq<(Seq<char>, usize)>, q: Seq<char>, i: int, k: int)
    requires
        0 <= i <= k < c.len(),
        c[k].0 == q,
        forall|j: int| i <= j < k ==> c[j].0 != q,
    ensures
        custom_from(c, q, i) == Some(c[k].1),
    decreases k - i,
{
    if i < k {
        lemma_custom_first(c, q, i + 1, k);
    }
}

/// The lookup from `i` on finds nothing when no entry from `i` on matches.
proof fn lemma_custom_none(c: Seq<(Seq<char>, usize)>, q: Seq<char>, i: int)
    requires
        0 <= i,
        forall|j: int| i <= j < c.len() ==> c[j].0 != q,
    ensures
        custom_from(c, q, i) is None,
    decreases c.len() - i,
{
    if i < c.len() {
        lemma_custom_none(c, q, i + 1);
    }
}

/// Two lists that agree on entries whose text is not `e` give the same lookup for other
/// texts, from any place on.
proof fn lemma_custom_agree(c0: Seq<(Seq<char>, usize)>, c1: Seq<(Seq<char>, usize)>, e: Seq<char>, q: Seq<char>, i: int)
    requires
        0 <= i,
        c0.len() == c1.len(),
        q != e,
        forall|j: int| 0 <= j < c0.len() ==> (c0[j].0 == q <==> c1[j].0 == q),
        forall|j: int| 0 <= j < c0.len() && c0[j].0 == q ==> c0[j] == c1[j],
    ensures
        custom_from(c0, q, i) == custom_from(c1, q, i),
    decreases c0.len() - i,
{
    if i < c0.len() {
        lemma_custom_agree(c0, c1, e, q, i + 1);
    }
}

/// Replacing the entry at `i` (the first for `e`) keeps the lookups of other texts.
proof fn lemma_custom_update(c0: Seq<(Seq<char>, usize)>, c1: Seq<(Seq<char>, usize)>, e: Seq<char>, q: Seq<char>, i: int)
    requires
        0 <= i < c0.len(),
        c0[i].0 == e,
        c1 == c0.update(i, (e, c1[i].1)),
        q != e,
    ensures
        custom_from(c1, q, 0) == custom_from(c0, q, 0),
{
    lemma_custom_agree(c0, c1, e, q, 0);
}

/// After replacing the first entry for `e` at `i`, the lookup of `e` gives the new width.
proof fn lemma_custom_prefix(c0: Seq<(Seq<char>, usize)>, c1: Seq<(Seq<char>, usize)>, e: Seq<char>, i: int)
    requires
        0 <= i < c0.len(),
        c1 == c0.update(i, (e, c1[i].1)),
        forall|k: int| 0 <= k < i ==> c0[k].0 != e,
    ensures
        custom_from(c1, e, 0) == Some(c1[i].1),
{
    lemma_custom_first(c1, e, 0, i);
}

/// Adding an entry for a text that has none gives it that width and keeps the others.
proof fn lemma_custom_push(c0: Seq<(Seq<char>, usize)>, e: Seq<char>, w: usize)
    requires
        forall|k: int| 0 <= k < c0.len() ==> c0[k].0 != e,
    ensures
        custom_from(c0.push((e, w)), e, 0) == Some(w),
        forall|q: Seq<char>| q != e ==> #[trigger] custom_from(c0.push((e, w)), q, 0) == custom_from(c0, q, 0),
{
    let c1 = c0.push((e, w));
    lemma_custom_first(c1, e, 0, c0.len() as int);
    assert forall|q: Seq<char>| q != e implies #[trigger] custom_from(c1, q, 0) == custom_from(c0, q, 0) by {
        lemma_custom_push_other(c0, e, w, q, 0);
    }
}

/// Adding an entry for `e` keeps the lookup of another text from any place on.
proof fn lemma_custom_push_other(c0: Seq<(Seq<char>, usize)>, e: Seq<char>, w: usize, q: Seq<char>, i: int)
    requires
        0 <= i,
        q != e,
    ensures
        custom_from(c0.push((e, w)), q, i) == custom_from(c0, q, i),
    decreases c0.len() + 1 - i,
{
    if i < c0.len() + 1 {
        lemma_custom_push_other(c0, e, w, q, i + 1);
    }
}


/// An emoji: emoticons, pictographs, transport and map symbols, regional indicators,
/// miscellaneous symbols, dingbats, supplemental pictographs and the blocks between
/// U+1F018 and U+1F270.
pub open spec fn is_emoji(c: char) -> bool {
    ||| ('\u{1F600}' <= c <= '\u{1F64F}')
    ||| ('\u{1F300}' <= c <= '\u{1F5FF}')
    ||| ('\u{1F680}' <= c <= '\u{1F6FF}')
    ||| ('\u{1F1E6}' <= c <= '\u{1F1FF}')
    ||| ('\u{2600}' <= c <= '\u{26FF}')
    ||| ('\u{2700}' <= c <= '\u{27BF}')
    ||| ('\u{1F900}' <= c <= '\u{1F9FF}')
    ||| ('\u{1F018}' <= c <= '\u{1F270}')
    ||| c == '\u{2764}'
    ||| c == '\u{2B50}'
    ||| c == '\u{2705}'
    ||| c == '\u{274C}'
    ||| c == '\u{2728}'
    ||| c == '\u{1F389}'
}

/// A regional indicator, half of a flag.
pub open spec fn is_regional(c: char) -> bool {
    '\u{1F1E6}' <= c <= '\u{1F1FF}'
}

/// A variation selector.
pub open spec fn is_selector(c: char) -> bool {
    ('\u{FE00}' <= c <= '\u{FE0F}') || ('\u{E0100}' <= c <= '\u{E01EF}')
}

/// The zero width joiner.
pub open spec fn is_joiner(c: char) -> bool {
    c == '\u{200D}'
}

/// A skin tone modifier.
pub open spec fn is_modifier(c: char) -> bool {
    '\u{1F3FB}' <= c <= '\u{1F3FF}'
}

/// The rest of an emoji sequence from `i`: where it ends and how many variation selectors
/// it holds. It goes on over a joiner (when joined sequences are one emoji) and the emoji
/// after it, over modifiers and over variation selectors.
pub open spec fn seq_ext(s: Seq<char>, i: int, c: EmojiSettings) -> (int, nat)
    decreases s.len() - i,
{
    if i < 0 || i >= s.len() {
        (i, 0)
    } else if is_joiner(s[i]) && c.zero_width_joiner_aware {
        if i + 1 < s.len() && is_emoji(s[i + 1]) {
            seq_ext(s, i + 2, c)
        } else {
            seq_ext(s, i + 1, c)
        }
    } else if is_modifier(s[i]) {
        seq_ext(s, i + 1, c)
    } else if is_selector(s[i]) {
        (seq_ext(s, i + 1, c).0, seq_ext(s, i + 1, c).1 + 1)
    } else {
        (i, 0)
    }
}

/// The rest of a sequence ends at or after where it starts, and within the text.
pub proof fn lemma_seq_ext(s: Seq<char>, i: int, c: EmojiSettings)
    requires
        0 <= i <= s.len(),
    ensures
        i <= seq_ext(s, i, c).0 <= s.len(),
        seq_ext(s, i, c).1 <= seq_ext(s, i, c).0 - i,
    decreases s.len() - i,
{
    if i < s.len() {
        if is_joiner(s[i]) && c.zero_width_joiner_aware {
            if i + 1 < s.len() && is_emoji(s[i + 1]) {
                lemma_seq_ext(s, i + 2, c);
            } else {
                lemma_seq_ext(s, i + 1, c);
            }
        } else if is_modifier(s[i]) || is_selector(s[i]) {
            lemma_seq_ext(s, i + 1, c);
        }
    }
}

/// The width a sequence has before its custom width is looked up: the emoji width and one
/// variation selector width per selector.
pub open spec fn raw_seq_width(s: Seq<char>, i: int, c: EmojiSettings) -> int {
    c.emoji_width + seq_ext(s, i + 1, c).1 * c.variation_selector_width
}

/// The width of the emoji sequence starting at `i`: its custom width, or its raw width.
pub open spec fn seq_width(s: Seq<char>, i: int, c: EmojiSettings) -> int {
    match custom_width(c, s.subrange(i, seq_ext(s, i + 1, c).0)) {
        Some(w) => w as int,
        None => raw_seq_width(s, i, c),
    }
}

/// The width of a character outside emoji: from the Unicode tables, or 1 for ASCII and 2
/// for anything else.
pub open spec fn plain_char_width(c: EmojiSettings, ch: char) -> int {
    if c.use_unicode_width {
        char_cols(ch) as int
    } else if (ch as u32) < 0x80 {
        1
    } else {
        2
    }
}

/// Where scanning goes on after an emoji sequence ending at `e`: a space right after it is
/// taken into the emoji's columns.
pub open spec fn after_emoji(s: Seq<char>, e: int) -> int {
    if 0 <= e < s.len() && s[e] == ' ' {
        e + 1
    } else {
        e
    }
}

/// The width of the text from `i` on: a character with a custom width has it; an emoji
/// sequence its width, a space right after it taking no column of its own; a pair of regional indicators the flag width, a lone one half of
/// it; a variation selector its width; a joiner none; any other character its width.
pub open spec fn scan(s: Seq<char>, i: int, c: EmojiSettings) -> int
    decreases s.len() - i,
{
    if i < 0 || i >= s.len() {
        0
    } else {
        match custom_width(c, seq![s[i]]) {
            Some(w) => w + scan(s, i + 1, c),
            None => if is_regional(s[i]) {
                if i + 1 < s.len() && is_regional(s[i + 1]) {
                    c.regional_indicator_width + scan(s, i + 2, c)
                } else {
                    c.regional_indicator_width / 2 + scan(s, i + 1, c)
                }
            } else if is_emoji(s[i]) {
                proof {
                    lemma_seq_ext(s, i + 1, c);
                }
                seq_width(s, i, c) + scan(s, after_emoji(s, seq_ext(s, i + 1, c).0), c)
            } else if is_selector(s[i]) {
                c.variation_selector_width + scan(s, i + 1, c)
            } else if is_joiner(s[i]) {
                scan(s, i + 1, c)
            } else {
                plain_char_width(c, s[i]) + scan(s, i + 1, c)
            },
        }
    }
}

/// Whether the raw width of every emoji sequence met while scanning from `i` fits in
/// `usize`.
pub open spec fn scan_ok(s: Seq<char>, i: int, c: EmojiSettings) -> bool
    decreases s.len() - i,
{
    if i < 0 || i >= s.len() {
        true
    } else {
        match custom_width(c, seq![s[i]]) {
            Some(w) => scan_ok(s, i + 1, c),
            None => if is_regional(s[i]) {
                if i + 1 < s.len() && is_regional(s[i + 1]) {
                    scan_ok(s, i + 2, c)
                } else {
                    scan_ok(s, i + 1, c)
                }
            } else if is_emoji(s[i]) {
                proof {
                    lemma_seq_ext(s, i + 1, c);
                }
                raw_seq_width(s, i, c) <= usize::MAX && scan_ok(s, after_emoji(s, seq_ext(s, i + 1, c).0), c)
            } else {
                scan_ok(s, i + 1, c)
            },
        }
    }
}

/// Whether the width of a text can be measured: it and every sequence in it fit in `usize`.
pub open spec fn width_ok(s: Seq<char>, c: EmojiSettings) -> bool {
    scan(s, 0, c) <= usize::MAX && scan_ok(s, 0, c)
}

/// Widths are never negative.
pub proof fn lemma_scan_nonneg(s: Seq<char>, i: int, c: EmojiSettings)
    ensures
        scan(s, i, c) >= 0,
    decreases s.len() - i,
{
    if 0 <= i < s.len() {
        match custom_width(c, seq![s[i]]) {
            Some(w) => lemma_scan_nonneg(s, i + 1, c),
            None => if is_regional(s[i]) && i + 1 < s.len() && is_regional(s[i + 1]) {
                lemma_scan_nonneg(s, i + 2, c);
            } else if !is_regional(s[i]) && is_emoji(s[i]) {
                lemma_seq_ext(s, i + 1, c);
                assert(seq_ext(s, i + 1, c).1 * c.variation_selector_width >= 0) by (nonlinear_arith);
                lemma_scan_nonneg(s, after_emoji(s, seq_ext(s, i + 1, c).0), c);
            } else {
                lemma_scan_nonneg(s, i + 1, c);
            },
        }
    }
}

/// Measures text with emoji.
pub struct EmojiWidthCalculator {
    config: EmojiConfig,
}

impl EmojiWidthCalculator {
    /// The settings measured with.
    pub closed spec fn settings(&self) -> EmojiSettings {
        self.config@
    }

    /// A calculator with the given settings.
    pub fn new(config: EmojiConfig) -> (res: Self)
        ensures
            res.settings() == config@,
    {
        EmojiWidthCalculator { config }
    }

    /// The custom width given for a text.
    fn custom(&self, q: &str) -> (res: Option<usize>)
        ensures
            res == custom_width(self.config@, q@),
    {
        let mut i: usize = 0;
        while i < self.config.custom_widths.len()
            invariant
                i <= self.config.custom_widths@.len(),
                custom_width(self.config@, q@) == custom_from(self.config@.custom_widths, q@, i as int),
            decreases self.config.custom_widths.len() - i,
        {
            if crate::text::str_eq(self.config.custom_widths[i].0.as_str(), q) {
                return Some(self.config.custom_widths[i].1);
            }
            i = i + 1;
        }
        None
    }

    /// The width of the emoji sequence starting at `i` and where it ends.
    fn sequence(&self, v: &Vec<char>, i: usize) -> (res: (usize, usize))
        requires
            i < v@.len(),
            raw_seq_width(v@, i as int, self.config@) <= usize::MAX,
        ensures
            res.0 == seq_width(v@, i as int, self.config@),
            res.1 == seq_ext(v@, i + 1, self.config@).0,
    {
        let ghost c = self.config@;
        proof {
            lemma_seq_ext(v@, i + 1, c);
        }
        let n = v.len();
        let mut width: usize = self.config.emoji_width;
        let mut j: usize = i + 1;
        let ghost total = seq_ext(v@, i + 1, c).1;
        let ghost k: nat = 0;
        loop
            invariant
                i + 1 <= j <= v@.len(),
                c == self.config@,
                seq_ext(v@, j as int, c).0 == seq_ext(v@, i + 1, c).0,
                seq_ext(v@, j as int, c).1 + k == total,
                total == seq_ext(v@, i + 1, c).1,
                width == c.emoji_width + k * c.variation_selector_width,
                raw_seq_width(v@, i as int, c) <= usize::MAX,
                n == v@.len(),
            ensures
                i + 1 <= j <= v@.len(),
                seq_ext(v@, j as int, c).0 == seq_ext(v@, i + 1, c).0,
                seq_ext(v@, j as int, c).0 == j,
                k == total,
                width == c.emoji_width + k * c.variation_selector_width,
            decreases v@.len() - j,
        {
            if j >= n {
                break;
            }
            let ch = v[j];
            if ch == '\u{200D}' && self.config.zero_width_joiner_aware {
                if j + 1 < v.len() && is_emoji_char(v[j + 1]) {
                    j = j + 2;
                } else {
                    j = j + 1;
                }
            } else if '\u{1F3FB}' <= ch && ch <= '\u{1F3FF}' {
                j = j + 1;
            } else if ('\u{FE00}' <= ch && ch <= '\u{FE0F}') || ('\u{E0100}' <= ch && ch <= '\u{E01EF}') {
                proof {
                    lemma_seq_ext(v@, j + 1, c);
                    let k1 = k + 1;
                    assert(k1 <= total);
                    assert(k1 * c.variation_selector_width <= total * c.variation_selector_width) by (nonlinear_arith)
                        requires
                            k1 <= total,
                    ;
                    assert(k1 * c.variation_selector_width == k * c.variation_selector_width + c.variation_selector_width) by (nonlinear_arith)
                        requires
                            k1 == k + 1,
                    ;
                    k = k1;
                }
                width = width + self.config.variation_selector_width;
                j = j + 1;
            } else {
                break;
            }
        }
        let text = string_from_chars(v, i, j);
        match self.custom(text.as_str()) {
            Some(w) => (w, j),
            None => (width, j),
        }
    }

    /// The width of a character outside emoji (see `plain_char_width`).
    fn character_width(&self, ch: char) -> (res: usize)
        ensures
            res == plain_char_width(self.config@, ch),
    {
        if self.config.use_unicode_width {
            char_display_width(ch)
        } else if (ch as u32) < 0x80 {
            1
        } else {
            2
        }
    }

    /// The width of the text (see `scan`).
    pub fn text_width(&self, text: &str) -> (res: usize)
        requires
            width_ok(text@, self.settings()),
        ensures
            res == scan(text@, 0, self.settings()),
    {
        let v = chars_of(text);
        let ghost c = self.config@;
        let mut total: usize = 0;
        let mut i: usize = 0;
        while i < v.len()
            invariant
                i <= v@.len(),
                v@ == text@,
                c == self.config@,
                width_ok(v@, c),
                total + scan(v@, i as int, c) == scan(v@, 0, c),
                scan_ok(v@, i as int, c),
            decreases v@.len() - i,
        {
            proof {
                lemma_scan_nonneg(v@, i + 1, c);
                lemma_scan_nonneg(v@, i + 2, c);
                lemma_seq_ext(v@, i + 1, c);
                lemma_scan_nonneg(v@, after_emoji(v@, seq_ext(v@, i + 1, c).0), c);
            }
            let ch = v[i];
            let mut one = String::new();
            push_char(&mut one, ch);
            assert(one@ =~= seq![v@[i as int]]);
            match self.custom(one.as_str()) {
                Some(w) => {
                    total = total + w;
                    i = i + 1;
                },
                None => {
                    if '\u{1F1E6}' <= ch && ch <= '\u{1F1FF}' {
                        if i + 1 < v.len() && '\u{1F1E6}' <= v[i + 1] && v[i + 1] <= '\u{1F1FF}' {
                            total = total + self.config.regional_indicator_width;
                            i = i + 2;
                        } else {
                            total = total + self.config.regional_indicator_width / 2;
                            i = i + 1;
                        }
                    } else if is_emoji_char(ch) {
                        let (w, end) = self.sequence(&v, i);
                        total = total + w;
                        i = end;
                        if i < v.len() && v[i] == ' ' {
                            i = i + 1;
                        }
                    } else if ('\u{FE00}' <= ch && ch <= '\u{FE0F}') || ('\u{E0100}' <= ch && ch <= '\u{E01EF}') {
                        total = total + self.config.variation_selector_width;
                        i = i + 1;
                    } else if ch == '\u{200D}' {
                        i = i + 1;
                    } else {
                        total = total + self.character_width(ch);
                        i = i + 1;
                    }
                },
            }
        }
        total
    }
}

/// Whether a character is an emoji (see `is_emoji`).
fn is_emoji_char(ch: char) -> (res: bool)
    ensures
        res == is_emoji(ch),
{
    ('\u{1F600}' <= ch && ch <= '\u{1F64F}') || ('\u{1F300}' <= ch && ch <= '\u{1F5FF}') || ('\u{1F680}' <= ch && ch
        <= '\u{1F6FF}') || ('\u{1F1E6}' <= ch && ch <= '\u{1F1FF}') || ('\u{2600}' <= ch && ch <= '\u{26FF}') || (
    '\u{2700}' <= ch && ch <= '\u{27BF}') || ('\u{1F900}' <= ch && ch <= '\u{1F9FF}') || ('\u{1F018}' <= ch && ch
        <= '\u{1F270}') || ch == '\u{2764}' || ch == '\u{2B50}' || ch == '\u{2705}' || ch == '\u{274C}' || ch
        == '\u{2728}' || ch == '\u{1F389}'
}


/// What `emoji_align_text` gives: the text when it is at least `width` wide; else filled with
/// spaces on the right (left), on the left (right), or on both sides, the smaller half on the
/// left (center and justify).
pub open spec fn emoji_align_spec(text: Seq<char>, width: nat, alignment: Alignment, c: EmojiSettings) -> Seq<char> {
    let tw = scan(text, 0, c);
    if tw >= width {
        text
    } else {
        let p = (width - tw) as nat;
        match alignment {
            Alignment::Left => text + spaces(p),
            Alignment::Right => spaces(p) + text,
            _ => spaces(p / 2) + text + spaces((p - p / 2) as nat),
        }
    }
}

/// The text placed in `width` columns by its emoji-aware width (see `emoji_align_spec`).
pub fn emoji_align_text(text: &str, width: usize, alignment: Alignment, config: &EmojiConfig) -> (res: String)
    requires
        width_ok(text@, config@),
    ensures
        res@ == emoji_align_spec(text@, width as nat, alignment, config@),
{
    let calculator = EmojiWidthCalculator::new(config.duplicate());
    let text_width = calculator.text_width(text);
    if text_width >= width {
        return owned(text);
    }
    let p = width - text_width;
    match alignment {
        Alignment::Left => concat2(text, spaces_string(p).as_str()),
        Alignment::Right => concat2(spaces_string(p).as_str(), text),
        _ => concat3(spaces_string(p / 2).as_str(), text, spaces_string(p - p / 2).as_str()),
    }
}

/// The width of the character at `i` while cutting, and where the next one starts: an emoji
/// sequence as a whole, any other character alone.
pub open spec fn cut_step(s: Seq<char>, i: int, c: EmojiSettings) -> (int, int) {
    if is_emoji(s[i]) {
        (seq_width(s, i, c), seq_ext(s, i + 1, c).0)
    } else {
        (plain_char_width(c, s[i]), i + 1)
    }
}

/// The characters kept from `i` on while the widths used stay within `target`; of an emoji
/// sequence only its first character is kept.
pub open spec fn cut_from(s: Seq<char>, i: int, used: int, target: int, c: EmojiSettings) -> Seq<char>
    decreases s.len() - i,
{
    if i < 0 || i >= s.len() {
        Seq::empty()
    } else {
        proof {
            lemma_seq_ext(s, i + 1, c);
        }
        let (w, next) = cut_step(s, i, c);
        if used + w > target {
            Seq::empty()
        } else {
            seq![s[i]] + cut_from(s, next, used + w, target, c)
        }
    }
}

/// Whether cutting from `i` on stays within `usize`.
pub open spec fn cut_ok(s: Seq<char>, i: int, used: int, target: int, c: EmojiSettings) -> bool
    decreases s.len() - i,
{
    if i < 0 || i >= s.len() {
        true
    } else {
        proof {
            lemma_seq_ext(s, i + 1, c);
        }
        let (w, next) = cut_step(s, i, c);
        &&& (is_emoji(s[i]) ==> raw_seq_width(s, i, c) <= usize::MAX)
        &&& used + w <= usize::MAX
        &&& (used + w <= target ==> cut_ok(s, next, used + w, target, c))
    }
}

/// What `emoji_truncate_text` gives: the text when it fits in `max`; the first `max` bytes
/// of the ellipsis when even it does not fit; else the characters that fit in what the
/// ellipsis leaves (see `cut_from`) and the ellipsis.
pub open spec fn emoji_truncate_spec(text: Seq<char>, max: nat, c: EmojiSettings, ellipsis: Seq<char>) -> Seq<char> {
    if scan(text, 0, c) <= max {
        text
    } else if scan(ellipsis, 0, c) >= max {
        let bytes = encode_utf8(ellipsis);
        decode_utf8(bytes.subrange(0, if max < bytes.len() { max as int } else { bytes.len() as int }))
    } else {
        cut_from(text, 0, 0, max - scan(ellipsis, 0, c), c) + ellipsis
    }
}

/// Whether a text can be cut: its width and the ellipsis's can be measured, a byte cut of
/// the ellipsis falls between characters, and the cutting stays within `usize`.
pub open spec fn emoji_truncate_ok(text: Seq<char>, max: nat, c: EmojiSettings, ellipsis: Seq<char>) -> bool {
    &&& width_ok(text, c)
    &&& (scan(text, 0, c) > max ==> width_ok(ellipsis, c))
    &&& (scan(text, 0, c) > max && scan(ellipsis, 0, c) >= max ==> is_char_boundary(
        encode_utf8(ellipsis),
        if max < encode_utf8(ellipsis).len() { max as int } else { encode_utf8(ellipsis).len() as int },
    ))
    &&& (scan(text, 0, c) > max && scan(ellipsis, 0, c) < max ==> cut_ok(text, 0, 0, max - scan(ellipsis, 0, c), c))
}

/// The text cut to `max_width` by its emoji-aware width (see `emoji_truncate_spec`).
pub fn emoji_truncate_text(text: &str, max_width: usize, config: &EmojiConfig, ellipsis: &str) -> (res: String)
    requires
        emoji_truncate_ok(text@, max_width as nat, config@, ellipsis@),
    ensures
        res@ == emoji_truncate_spec(text@, max_width as nat, config@, ellipsis@),
{
    let calculator = EmojiWidthCalculator::new(config.duplicate());
    let ghost c = config@;
    let text_width = calculator.text_width(text);
    if text_width <= max_width {
        return owned(text);
    }
    let ellipsis_width = calculator.text_width(ellipsis);
    if ellipsis_width >= max_width {
        let n = ellipsis.as_bytes().len();
        let cut = if max_width < n { max_width } else { n };
        let (head, _) = ellipsis.split_at(cut);
        proof {
            vstd::utf8::encode_utf8_decode_utf8(head@);
        }
        return owned(head);
    }
    let target = max_width - ellipsis_width;
    let v = chars_of(text);
    let mut result = String::new();
    let mut used: usize = 0;
    let mut i: usize = 0;
    let n = v.len();
    loop
        invariant
            i <= v@.len(),
            n == v@.len(),
            v@ == text@,
            c == config@,
            calculator.settings() == c,
            used <= target,
            cut_ok(v@, i as int, used as int, target as int, c),
            result@ + cut_from(v@, i as int, used as int, target as int, c) == cut_from(v@, 0, 0, target as int, c),
        ensures
            result@ == cut_from(v@, 0, 0, target as int, c),
        decreases v@.len() - i,
    {
        if i >= n {
            assert(result@ + Seq::<char>::empty() =~= result@);
            break;
        }
        proof {
            lemma_seq_ext(v@, i + 1, c);
        }
        let ch = v[i];
        let (w, next) = if is_emoji_char(ch) {
            calculator.sequence(&v, i)
        } else {
            (calculator.character_width(ch), i + 1)
        };
        if used + w > target {
            assert(result@ + Seq::<char>::empty() =~= result@);
            break;
        }
        let ghost before = result@;
        push_char(&mut result, ch);
        assert(before + cut_from(v@, i as int, used as int, target as int, c) =~= result@ + cut_from(
            v@,
            next as int,
            used + w,
            target as int,
            c,
        ));
        used = used + w;
        i = next;
    }
    concat2(result.as_str(), ellipsis)
}

/// The widest cell of column `col` among the first `n` rows (0 for none).
pub open spec fn emoji_col_max(t: Seq<Seq<Seq<char>>>, col: int, n: int, c: EmojiSettings) -> int
    decreases n,
{
    if n <= 0 {
        0
    } else {
        let rest = emoji_col_max(t, col, n - 1, c);
        let w = if col < t[n - 1].len() { scan(t[n - 1][col], 0, c) } else { 0 };
        if w > rest {
            w
        } else {
            rest
        }
    }
}

/// For each column of the first row, its widest cell by the emoji-aware width; nothing for
/// no rows.
pub open spec fn emoji_widths(t: Seq<Seq<Seq<char>>>, c: EmojiSettings) -> Seq<int> {
    Seq::new(column_count_of(t), |col: int| emoji_col_max(t, col, t.len() as int, c))
}

/// Whether every cell's width can be measured.
pub open spec fn cells_measurable(t: Seq<Seq<Seq<char>>>, c: EmojiSettings) -> bool {
    forall|r: int, k: int| 0 <= r < t.len() && 0 <= k < t[r].len() ==> width_ok(#[trigger] t[r][k], c)
}

/// The widest cell of each column (see `emoji_widths`).
pub fn calculate_emoji_column_widths(rows: &[Row], config: &EmojiConfig) -> (res: Vec<usize>)
    requires
        cells_measurable(table_view(rows@), config@),
    ensures
        res@.len() == emoji_widths(table_view(rows@), config@).len(),
        forall|k: int| 0 <= k < res@.len() ==> res@[k] == #[trigger] emoji_widths(table_view(rows@), config@)[k],
{
    let ghost t = table_view(rows@);
    let ghost c = config@;
    if rows.len() == 0 {
        return Vec::new();
    }
    let calculator = EmojiWidthCalculator::new(config.duplicate());
    let n = rows[0].len();
    let mut widths: Vec<usize> = Vec::new();
    let mut k: usize = 0;
    while k < n
        invariant
            k <= n == t[0].len(),
            t == table_view(rows@),
            c == config@,
            calculator.settings() == c,
            cells_measurable(t, c),
            widths@.len() == k,
            forall|j: int| 0 <= j < k ==> widths@[j] == #[trigger] emoji_col_max(t, j, t.len() as int, c),
        decreases n - k,
    {
        let mut best: usize = 0;
        let mut r: usize = 0;
        while r < rows.len()
            invariant
                r <= rows@.len() == t.len(),
                k < n == t[0].len(),
                t == table_view(rows@),
                c == config@,
                calculator.settings() == c,
                cells_measurable(t, c),
                best == emoji_col_max(t, k as int, r as int, c),
            decreases rows.len() - r,
        {
            if k < rows[r].len() {
                assert(t[r as int][k as int] == rows@[r as int]@[k as int]@);
                let w = calculator.text_width(rows[r][k].as_str());
                if w > best {
                    best = w;
                }
            }
            r = r + 1;
        }
        widths.push(best);
        k = k + 1;
    }
    widths
}

/// Whether every column's widest cell and two spaces fit in `usize`.
pub open spec fn emoji_widths_fit(t: Seq<Seq<Seq<char>>>, c: EmojiSettings) -> bool {
    forall|k: int| 0 <= k < emoji_widths(t, c).len() ==> #[trigger] emoji_widths(t, c)[k] + 2 <= usize::MAX
}

/// The drawn widths: each column's widest cell and two spaces.
pub open spec fn emoji_drawn(t: Seq<Seq<Seq<char>>>, c: EmojiSettings) -> Seq<nat> {
    Seq::new(emoji_widths(t, c).len(), |k: int| (emoji_widths(t, c)[k] + 2) as nat)
}

/// A row drawn: the vertical character, then each cell left-placed in its column's width
/// between spaces and followed by it, and a line feed.
pub open spec fn emoji_row(row: Seq<Seq<char>>, w: Seq<int>, v: char, c: EmojiSettings) -> Seq<char> {
    seq![v] + concat_all(
        Seq::new(
            row.len(),
            |k: int|
                seq![' '] + emoji_align_spec(row[k], if k < w.len() { w[k] as nat } else { 0 }, Alignment::Left, c)
                    + seq![' ', v],
        ),
    ) + seq!['\n']
}

/// What `render_emoji_table` gives for a valid table: nothing for no rows; else the top line
/// when shown, each row followed (but the last) by a line when lines between rows are shown,
/// and the bottom line when shown.
pub open spec fn emoji_table_spec(t: Seq<Seq<Seq<char>>>, b: BorderChars, o: RenderOptions, c: EmojiSettings) -> Seq<char> {
    let w = emoji_drawn(t, c);
    if t.len() == 0 {
        Seq::empty()
    } else {
        (if o.show_top_border {
            plain_line_spec(b.top_left, b.top_junction, b.top_right, b.horizontal, w)
        } else {
            Seq::empty()
        }) + concat_all(
            Seq::new(
                t.len(),
                |r: int|
                    emoji_row(t[r], emoji_widths(t, c), b.vertical, c) + if o.show_row_separators && r < t.len() - 1 {
                        plain_line_spec('├', '┼', '┤', b.horizontal, w)
                    } else {
                        Seq::empty()
                    },
            ),
        ) + if o.show_bottom_border {
            plain_line_spec(b.bottom_left, b.bottom_junction, b.bottom_right, b.horizontal, w)
        } else {
            Seq::empty()
        }
    }
}

/// One row drawn (see `emoji_row`).
fn emoji_row_text(row: &Vec<String>, widths: &Vec<usize>, v: char, config: &EmojiConfig) -> (res: String)
    requires
        forall|k: int| 0 <= k < row@.len() ==> width_ok(#[trigger] row@[k]@, config@),
    ensures
        res@ == emoji_row(views(row@), widths@.map_values(|x: usize| x as int), v, config@),
{
    let ghost w = widths@.map_values(|x: usize| x as int);
    let ghost c = config@;
    let ghost cells = Seq::new(
        views(row@).len(),
        |k: int|
            seq![' '] + emoji_align_spec(views(row@)[k], if k < w.len() { w[k] as nat } else { 0 }, Alignment::Left, c)
                + seq![' ', v],
    );
    let mut result = String::new();
    push_char(&mut result, v);
    let ghost start = result@;
    let mut i: usize = 0;
    while i < row.len()
        invariant
            i <= row@.len(),
            w == widths@.map_values(|x: usize| x as int),
            c == config@,
            forall|k: int| 0 <= k < row@.len() ==> width_ok(#[trigger] row@[k]@, config@),
            cells == Seq::new(
                views(row@).len(),
                |k: int|
                    seq![' '] + emoji_align_spec(views(row@)[k], if k < w.len() { w[k] as nat } else { 0 }, Alignment::Left, c)
                        + seq![' ', v],
            ),
            result@ == start + concat_all(cells.take(i as int)),
        decreases row.len() - i,
    {
        let width: usize = if i < widths.len() { widths[i] } else { 0 };
        let aligned = emoji_align_text(row[i].as_str(), width, Alignment::Left, config);
        let ghost before = result@;
        push_char(&mut result, ' ');
        push_str(&mut result, aligned.as_str());
        push_char(&mut result, ' ');
        push_char(&mut result, v);
        assert(result@ =~= before + cells[i as int]);
        assert(cells.take(i + 1).drop_last() =~= cells.take(i as int));
        i = i + 1;
    }
    assert(cells.take(i as int) =~= cells);
    push_char(&mut result, '\n');
    result
}

/// The table drawn with emoji-aware widths (see `emoji_table_spec`), after checking that
/// every row is as long as the first.
pub fn render_emoji_table(data: &TableData, border: &BorderChars, options: &RenderOptions, config: &EmojiConfig) -> (res:
    Result<String, String>)
    requires
        cells_measurable(table_view(data.rows@), config@),
        emoji_widths_fit(table_view(data.rows@), config@),
    ensures
        match first_bad_row(table_view(data.rows@), 0, column_count_of(table_view(data.rows@))) {
            Some(i) => res matches Err(m) && m@ == row_length_msg(
                i,
                table_view(data.rows@)[i as int].len(),
                column_count_of(table_view(data.rows@)),
            ),
            None => res matches Ok(s) && s@ == emoji_table_spec(table_view(data.rows@), *border, *options, config@),
        },
{
    let ghost t = table_view(data.rows@);
    let ghost c = config@;
    match validate_table_data(data) {
        Ok(_) => {},
        Err(e) => {
            return Err(e);
        },
    }
    if data.is_empty() {
        return Ok(String::new());
    }
    let auto = calculate_emoji_column_widths(data.rows.as_slice(), config);
    let mut drawn: Vec<usize> = Vec::new();
    let mut k: usize = 0;
    while k < auto.len()
        invariant
            k <= auto@.len() == emoji_widths(t, c).len(),
            forall|j: int| 0 <= j < auto@.len() ==> auto@[j] == #[trigger] emoji_widths(t, c)[j],
            emoji_widths_fit(t, c),
            drawn@.len() == k,
            forall|j: int| 0 <= j < k ==> drawn@[j] as nat == #[trigger] emoji_drawn(t, c)[j],
        decreases auto.len() - k,
    {
        assert(emoji_widths(t, c)[k as int] + 2 <= usize::MAX);
        drawn.push(auto[k] + 2);
        k = k + 1;
    }
    let ghost w = emoji_drawn(t, c);
    assert(drawn@.map_values(|x: usize| x as nat) =~= w);
    assert(auto@.map_values(|x: usize| x as int) =~= emoji_widths(t, c));
    let mut result = String::new();
    if options.show_top_border {
        let line = plain_line(border.top_left, border.top_junction, border.top_right, border.horizontal, &drawn);
        push_str(&mut result, line.as_str());
    }
    let ghost start = result@;
    let ghost parts = Seq::new(
        t.len(),
        |r: int|
            emoji_row(t[r], emoji_widths(t, c), border.vertical, c) + if options.show_row_separators && r < t.len()
                - 1 {
                plain_line_spec('├', '┼', '┤', border.horizontal, w)
            } else {
                Seq::empty()
            },
    );
    let n = data.rows.len();
    let mut r: usize = 0;
    while r < n
        invariant
            r <= n == data.rows@.len() == t.len(),
            t == table_view(data.rows@),
            c == config@,
            cells_measurable(t, c),
            auto@.map_values(|x: usize| x as int) == emoji_widths(t, c),
            drawn@.map_values(|x: usize| x as nat) == w,
            w == emoji_drawn(t, c),
            parts == Seq::new(
                t.len(),
                |q: int|
                    emoji_row(t[q], emoji_widths(t, c), border.vertical, c) + if options.show_row_separators && q
                        < t.len() - 1 {
                        plain_line_spec('├', '┼', '┤', border.horizontal, w)
                    } else {
                        Seq::empty()
                    },
            ),
            result@ == start + concat_all(parts.take(r as int)),
        decreases n - r,
    {
        assert(t[r as int] == views(data.rows@[r as int]@));
        assert forall|k: int| 0 <= k < data.rows@[r as int]@.len() implies width_ok(
            #[trigger] data.rows@[r as int]@[k]@,
            config@,
        ) by {
            assert(t[r as int][k] == data.rows@[r as int]@[k]@);
        }
        let line = emoji_row_text(&data.rows[r], &auto, border.vertical, config);
        let ghost before = result@;
        push_str(&mut result, line.as_str());
        if options.show_row_separators && r < n - 1 {
            let sep = plain_line('├', '┼', '┤', border.horizontal, &drawn);
            push_str(&mut result, sep.as_str());
        }
        assert(result@ =~= before + parts[r as int]);
        assert(parts.take(r + 1).drop_last() =~= parts.take(r as int));
        r = r + 1;
    }
    assert(parts.take(r as int) =~= parts);
    if options.show_bottom_border {
        let line = plain_line(
            border.bottom_left,
            border.bottom_junction,
            border.bottom_right,
            border.horizontal,
            &drawn,
        );
        push_str(&mut result, line.as_str());
    }
    Ok(result)
}

} // verus!
