use crate::text::{chars_of, concat2, owned, string_from_chars};
use crate::utils::ansi::byte_len;
use vstd::prelude::*;

verus! {

/// How text longer than a maximum is cut: the maximum in bytes, the ellipsis that marks the
/// cut, and whether the start (rather than the end) is cut off.
#[derive(Debug, Clone)]
pub struct TruncationConfig {
    pub max_width: Option<usize>,
    pub ellipsis: String,
    pub truncate_start: bool,
}

impl Default for TruncationConfig {
    /// No maximum, `...` as the ellipsis, the end cut off.
    fn default() -> (res: Self)
        ensures
            res.max_width is None,
            res.ellipsis@ == "..."@,
            !res.truncate_start,
    {
        TruncationConfig { max_width: None, ellipsis: owned("..."), truncate_start: false }
    }
}

impl TruncationConfig {
    /// The default settings.
    pub fn new() -> (res: Self)
        ensures
            res.max_width is None,
            res.ellipsis@ == "..."@,
            !res.truncate_start,
    {
        Self::default()
    }

    /// The same settings with the given maximum.
    pub fn with_max_width(self, max_width: usize) -> (res: Self)
        ensures
            res.max_width == Some(max_width),
            res.ellipsis@ == self.ellipsis@,
            res.truncate_start == self.truncate_start,
    {
        TruncationConfig { max_width: Some(max_width), ..self }
    }

    /// The same settings with the given ellipsis.
    pub fn with_ellipsis(self, ellipsis: &str) -> (res: Self)
        ensures
            res.max_width == self.max_width,
            res.ellipsis@ == ellipsis@,
            res.truncate_start == self.truncate_start,
    {
        TruncationConfig { ellipsis: owned(ellipsis), ..self }
    }

    /// The same settings, cutting off the start.
    pub fn with_start_truncation(self) -> (res: Self)
        ensures
            res.max_width == self.max_width,
            res.ellipsis@ == self.ellipsis@,
            res.truncate_start,
    {
        TruncationConfig { truncate_start: true, ..self }
    }

    /// No maximum and no ellipsis.
    pub fn none() -> (res: Self)
        ensures
            res.max_width is None,
            res.ellipsis@.len() == 0,
            !res.truncate_start,
    {
        TruncationConfig { max_width: None, ellipsis: String::new(), truncate_start: false }
    }
}

/// Whether cutting `text` with the given maximum, ellipsis and side can be done: when the
/// start is cut off, the text has at least as many characters as are kept.
pub open spec fn truncate_parts_ok(text: Seq<char>, max: Option<usize>, ellipsis: Seq<char>, start: bool) -> bool {
    match max {
        Some(m) => byte_len(text) > m && m > byte_len(ellipsis) && start ==> text.len() >= m
            - byte_len(ellipsis),
        None => true,
    }
}

/// Whether cutting `text` with `c` can be done (see `truncate_parts_ok`).
pub open spec fn truncate_text_ok(text: Seq<char>, c: TruncationConfig) -> bool {
    truncate_parts_ok(text, c.max_width, c.ellipsis@, c.truncate_start)
}

/// Where the last space before position `n` of `s` is; -1 when there is none.
pub open spec fn space_before(s: Seq<char>, n: int) -> int
    decreases n,
{
    if n <= 0 {
        -1
    } else if s[n - 1] == ' ' {
        n - 1
    } else {
        space_before(s, n - 1)
    }
}

/// Where a cut of `s` after `n` characters ends when it does not split a word: a word that
/// the cut would split is left out whole, the space before it kept, when a space comes
/// before it; otherwise the cut stays at `n`.
pub open spec fn word_cut(s: Seq<char>, n: int) -> int {
    if 0 < n < s.len() && s[n] != ' ' && space_before(s, n) >= 0 {
        space_before(s, n) + 1
    } else {
        n
    }
}

/// The text cut with the given maximum, ellipsis and side: the text when there is no
/// maximum or it fits (in bytes); its first `max` characters when the ellipsis does not fit;
/// else the ellipsis and the last characters, as many as the maximum less the ellipsis's
/// bytes; or the first characters, as many, short of a word the cut would split (see
/// `word_cut`), and the ellipsis.
pub open spec fn truncate_parts(text: Seq<char>, max: Option<usize>, ellipsis: Seq<char>, start: bool) -> Seq<char> {
    match max {
        None => text,
        Some(m) => if byte_len(text) <= m {
            text
        } else if m <= byte_len(ellipsis) {
            text.take(if m < text.len() { m as int } else { text.len() as int })
        } else {
            let keep = (m - byte_len(ellipsis)) as nat;
            if start {
                ellipsis + text.skip(text.len() - keep)
            } else {
                text.take(word_cut(text, if keep < text.len() { keep as int } else { text.len() as int })) + ellipsis
            }
        },
    }
}

/// What `truncate_text` gives (see `truncate_parts`).
pub open spec fn truncate_text_spec(text: Seq<char>, c: TruncationConfig) -> Seq<char> {
    truncate_parts(text, c.max_width, c.ellipsis@, c.truncate_start)
}

/// Where a cut after `n` characters ends when it does not split a word (see `word_cut`).
pub fn word_end(v: &Vec<char>, n: usize) -> (res: usize)
    requires
        n <= v@.len(),
    ensures
        res == word_cut(v@, n as int),
        res <= n,
{
    if n == 0 || n >= v.len() || v[n] == ' ' {
        return n;
    }
    let mut j: usize = n;
    while j > 0 && v[j - 1] != ' '
        invariant
            0 <= j <= n < v@.len(),
            space_before(v@, n as int) == space_before(v@, j as int),
        decreases j,
    {
        j = j - 1;
    }
    if j > 0 {
        j
    } else {
        n
    }
}

/// `text` cut to the configuration's maximum (see `truncate_text_spec`).
pub fn truncate_text(text: &str, config: &TruncationConfig) -> (res: String)
    requires
        truncate_text_ok(text@, *config),
    ensures
        res@ == truncate_text_spec(text@, *config),
{
    let max_width = match config.max_width {
        Some(w) => w,
        None => {
            return owned(text);
        },
    };
    if text.as_bytes().len() <= max_width {
        return owned(text);
    }
    let ellipsis_len = config.ellipsis.as_str().as_bytes().len();
    let chars = chars_of(text);
    if max_width <= ellipsis_len {
        let n: usize = if max_width < chars.len() {
            max_width
        } else {
            chars.len()
        };
        let r = string_from_chars(&chars, 0, n);
        assert(chars@.subrange(0, n as int) =~= text@.take(n as int));
        return r;
    }
    let content_len: usize = max_width - ellipsis_len;
    if config.truncate_start {
        let start_pos: usize = chars.len() - content_len;
        let tail = string_from_chars(&chars, start_pos, chars.len());
        assert(chars@.subrange(start_pos as int, chars.len() as int) =~= text@.skip(
            text@.len() - content_len,
        ));
        concat2(config.ellipsis.as_str(), tail.as_str())
    } else {
        let n: usize = if content_len < chars.len() {
            content_len
        } else {
            chars.len()
        };
        let cut = word_end(&chars, n);
        let head = string_from_chars(&chars, 0, cut);
        assert(chars@.subrange(0, cut as int) =~= text@.take(cut as int));
        concat2(head.as_str(), config.ellipsis.as_str())
    }
}

} // verus!
