use crate::padding::{left_fill, Padding};
use crate::text::{
    chars_of, concat2, concat3, nsub, owned, push_str, spaces, spaces_string, split_whitespace, spread,
    spread_words, views, words_of,
};
use crate::truncation::TruncationConfig;
pub use crate::types::Alignment;
use crate::utils::ansi::{byte_len, bytes_sum, lemma_words_bytes, sum_word_bytes};
use crate::vertical_alignment::VerticalAlignment;
use crate::wrapping::WrapConfig;
use vstd::prelude::*;

verus! {

/// How one column of a plain table is laid out.
#[derive(Debug, Clone)]
pub struct ColumnConfig {
    pub width: Option<usize>,
    pub alignment: Alignment,
    pub vertical_alignment: VerticalAlignment,
    pub padding: Padding,
    pub truncation: TruncationConfig,
    pub wrap_config: Option<WrapConfig>,
}

/// Whether `c` holds the default column settings: no width, left and top, one space of
/// padding on each side, no truncation, no wrapping.
pub open spec fn is_default_column(c: ColumnConfig) -> bool {
    &&& c.width is None
    &&& c.alignment == Alignment::Left
    &&& c.vertical_alignment == VerticalAlignment::Top
    &&& c.padding == (Padding { left: 1, right: 1 })
    &&& c.truncation.max_width is None
    &&& c.truncation.ellipsis@ == "..."@
    &&& !c.truncation.truncate_start
    &&& c.wrap_config is None
}

impl Default for ColumnConfig {
    fn default() -> (res: Self)
        ensures
            is_default_column(res),
    {
        ColumnConfig {
            width: None,
            alignment: Alignment::Left,
            vertical_alignment: VerticalAlignment::Top,
            padding: Padding::default(),
            truncation: TruncationConfig::default(),
            wrap_config: None,
        }
    }
}

impl ColumnConfig {
    /// The default settings.
    pub fn new() -> (res: Self)
        ensures
            is_default_column(res),
    {
        Self::default()
    }

    /// The same settings with the given width.
    pub fn with_width(self, width: usize) -> (res: Self)
        ensures
            res == (ColumnConfig { width: Some(width), ..self }),
    {
        ColumnConfig { width: Some(width), ..self }
    }

    /// The same settings with the given alignment.
    pub fn with_alignment(self, alignment: Alignment) -> (res: Self)
        ensures
            res == (ColumnConfig { alignment, ..self }),
    {
        ColumnConfig { alignment, ..self }
    }

    /// The same settings with the given padding.
    pub fn with_padding(self, padding: Padding) -> (res: Self)
        ensures
            res == (ColumnConfig { padding, ..self }),
    {
        ColumnConfig { padding, ..self }
    }

    /// The same settings with the given truncation.
    pub fn with_truncation(self, truncation: TruncationConfig) -> (res: Self)
        ensures
            res == (ColumnConfig { truncation, ..self }),
    {
        ColumnConfig { truncation, ..self }
    }

    /// The same settings with the given wrapping.
    pub fn with_wrapping(self, wrap_config: WrapConfig) -> (res: Self)
        ensures
            res == (ColumnConfig { wrap_config: Some(wrap_config), ..self }),
    {
        ColumnConfig { wrap_config: Some(wrap_config), ..self }
    }

    /// The same settings with the given vertical alignment.
    pub fn with_vertical_alignment(self, vertical_alignment: VerticalAlignment) -> (res: Self)
        ensures
            res == (ColumnConfig { vertical_alignment, ..self }),
    {
        ColumnConfig { vertical_alignment, ..self }
    }

    /// A copy of the settings.
    pub fn duplicate(&self) -> (res: Self)
        ensures
            res == *self,
    {
        ColumnConfig {
            width: self.width,
            alignment: self.alignment,
            vertical_alignment: self.vertical_alignment,
            padding: self.padding,
            truncation: TruncationConfig {
                max_width: self.truncation.max_width,
                ellipsis: self.truncation.ellipsis.clone(),
                truncate_start: self.truncation.truncate_start,
            },
            wrap_config: self.wrap_config,
        }
    }
}

/// `s` preceded by spaces up to `width` characters.
pub open spec fn right_fill(s: Seq<char>, width: nat) -> Seq<char> {
    if s.len() >= width {
        s
    } else {
        spaces((width - s.len()) as nat) + s
    }
}

/// What `justify_text` gives: the text when it is at least `width` bytes long; filled on the
/// right when it has at most one word; else its words with the spare bytes spread over the
/// gaps: each gap but the first as many as the spare bytes divided by the number of words,
/// the first gap the rest.
pub open spec fn justify_plain_spec(text: Seq<char>, width: nat) -> Seq<char> {
    let words = words_of(text);
    if byte_len(text) >= width {
        text
    } else if words.len() <= 1 {
        left_fill(text, width)
    } else {
        let total = nsub(width, bytes_sum(words));
        let per = total / words.len();
        let first = nsub(total, per * ((words.len() - 2) as nat));
        words[0] + spaces(first) + spread(words.drop_first(), per, 0)
    }
}

/// What `align_text` gives: the text when it is at least `width` bytes long; else filled on
/// the right (left), on the left (right), on both sides by the missing bytes, the smaller half
/// on the left (center), or justified.
pub open spec fn align_text_spec(text: Seq<char>, width: nat, alignment: Alignment) -> Seq<char> {
    if byte_len(text) >= width {
        text
    } else {
        match alignment {
            Alignment::Left => left_fill(text, width),
            Alignment::Right => right_fill(text, width),
            Alignment::Center => {
                let p = (width - byte_len(text)) as nat;
                spaces(p / 2) + text + spaces((p - p / 2) as nat)
            },
            Alignment::Justify => justify_plain_spec(text, width),
        }
    }
}

/// `text` filled with spaces on the right up to `width` characters.
fn fill_left_aligned(text: &str, width: usize) -> (res: String)
    ensures
        res@ == left_fill(text@, width as nat),
{
    let n = chars_of(text).len();
    if n >= width {
        owned(text)
    } else {
        concat2(text, spaces_string(width - n).as_str())
    }
}

/// `text` placed in `width` columns (see `align_text_spec`).
pub fn align_text(text: &str, width: usize, alignment: Alignment) -> (res: String)
    ensures
        res@ == align_text_spec(text@, width as nat, alignment),
{
    let text_len = text.as_bytes().len();
    if text_len >= width {
        return owned(text);
    }
    match alignment {
        Alignment::Left => fill_left_aligned(text, width),
        Alignment::Right => {
            let n = chars_of(text).len();
            if n >= width {
                owned(text)
            } else {
                concat2(spaces_string(width - n).as_str(), text)
            }
        },
        Alignment::Center => {
            let padding: usize = width - text_len;
            let left: usize = padding / 2;
            concat3(spaces_string(left).as_str(), text, spaces_string(padding - left).as_str())
        },
        Alignment::Justify => justify_text(text, width),
    }
}

/// The words of `text` spread over `width` bytes (see `justify_plain_spec`).
pub fn justify_text(text: &str, width: usize) -> (res: String)
    ensures
        res@ == justify_plain_spec(text@, width as nat),
{
    let text_len = text.as_bytes().len();
    if text_len >= width {
        return owned(text);
    }
    let words = split_whitespace(text);
    if words.len() <= 1 {
        return fill_left_aligned(text, width);
    }
    proof {
        lemma_words_bytes(text@);
    }
    let total_chars = sum_word_bytes(&words, width);
    let total_spaces: usize = width - total_chars;
    let n = words.len();
    let per: usize = total_spaces / n;
    proof {
        assert(per * ((n - 2) as nat) <= total_spaces) by (nonlinear_arith)
            requires
                per == total_spaces / n,
                n >= 2,
        ;
    }
    let first: usize = total_spaces - per * (n - 2);
    let mut rest: Vec<String> = Vec::new();
    let mut i: usize = 1;
    while i < n
        invariant
            1 <= i <= n == words@.len(),
            views(rest@) == views(words@).subrange(1, i as int),
        decreases n - i,
    {
        let ghost before = views(rest@);
        let w = owned(words[i].as_str());
        rest.push(w);
        assert(views(rest@) =~= before.push(w@));
        i = i + 1;
        assert(views(rest@) =~= views(words@).subrange(1, i as int));
    }
    assert(views(rest@) =~= views(words@).drop_first());
    let tail = spread_words(&rest, per, 0);
    let mut res = owned(words[0].as_str());
    let sp = spaces_string(first);
    push_str(&mut res, sp.as_str());
    push_str(&mut res, tail.as_str());
    res
}

} // verus!
