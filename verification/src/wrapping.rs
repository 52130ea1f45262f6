use crate::text::{
    char_is_whitespace, chars_of, is_whitespace, owned, push_char, push_str, split_whitespace,
    string_from_chars, views, words_of,
};
use crate::utils::ansi::byte_len;
use vstd::prelude::*;

verus! {

/// Where lines may be broken.
#[derive(Debug, Clone, Copy, PartialEq, Eq, Structural)]
pub enum WrapMode {
    Word,
    Character,
    NoWrap,
}

impl Default for WrapMode {
    /// Breaking between words.
    fn default() -> (res: Self)
        ensures
            res == WrapMode::Word,
    {
        WrapMode::Word
    }
}

/// How text is broken into lines: where, at how many bytes, and whether whitespace is kept.
#[derive(Debug, Clone, Copy, PartialEq, Eq, Structural)]
pub struct WrapConfig {
    pub mode: WrapMode,
    pub width: usize,
    pub preserve_whitespace: bool,
}

impl WrapConfig {
    /// Breaking between words at `width` bytes.
    pub fn new(width: usize) -> (res: Self)
        ensures
            res == (WrapConfig { mode: WrapMode::Word, width, preserve_whitespace: false }),
    {
        WrapConfig { mode: WrapMode::Word, width, preserve_whitespace: false }
    }

    /// The same settings with the given mode.
    pub fn with_mode(self, mode: WrapMode) -> (res: Self)
        ensures
            res == (WrapConfig { mode, ..self }),
    {
        WrapConfig { mode, ..self }
    }

    /// The same settings, keeping whitespace.
    pub fn with_preserve_whitespace(self) -> (res: Self)
        ensures
            res == (WrapConfig { preserve_whitespace: true, ..self }),
    {
        WrapConfig { preserve_whitespace: true, ..self }
    }
}

/// `s` without its trailing whitespace.
pub open spec fn trim_end_ws(s: Seq<char>) -> Seq<char>
    decreases s.len(),
{
    if s.len() > 0 && is_whitespace(s.last()) {
        trim_end_ws(s.drop_last())
    } else {
        s
    }
}

/// `s` without its trailing whitespace (`str::trim_end`).
pub fn trim_end(s: &str) -> (res: String)
    ensures
        res@ == trim_end_ws(s@),
{
    let v = chars_of(s);
    let mut n: usize = v.len();
    assert(v@.take(v.len() as int) =~= v@);
    while n > 0 && char_is_whitespace(v[n - 1])
        invariant
            n <= v.len(),
            v@ == s@,
            trim_end_ws(v@.take(n as int)) == trim_end_ws(s@),
        decreases n,
    {
        assert(v@.take(n as int).drop_last() =~= v@.take(n - 1));
        n = n - 1;
    }
    assert(v@.take(n as int) =~= v@.subrange(0, n as int));
    string_from_chars(&v, 0, n)
}

/// The lines of `s` from index `i` on, broken character by character: a line is closed once
/// it holds at least `width` bytes, before the next character is added.
pub open spec fn char_wrap_from(s: Seq<char>, i: int, cur: Seq<char>, width: nat) -> Seq<Seq<char>>
    decreases s.len() - i,
{
    if i < 0 || i >= s.len() {
        if cur.len() > 0 {
            seq![cur]
        } else {
            Seq::empty()
        }
    } else if byte_len(cur) >= width && cur.len() > 0 {
        seq![cur] + char_wrap_from(s, i + 1, seq![s[i]], width)
    } else {
        char_wrap_from(s, i + 1, cur.push(s[i]), width)
    }
}

/// `s` broken character by character (one empty line for empty text).
pub open spec fn char_wrap(s: Seq<char>, width: nat) -> Seq<Seq<char>> {
    let r = char_wrap_from(s, 0, Seq::empty(), width);
    if r.len() == 0 {
        seq![Seq::empty()]
    } else {
        r
    }
}

/// One word added to the state `(lines, current line, its bytes)` of word wrapping: the
/// current line is closed when the word does not fit beside it; a word wider than the width
/// is broken character by character on lines of its own.
pub open spec fn word_step(
    lines: Seq<Seq<char>>,
    cur: Seq<char>,
    clen: nat,
    word: Seq<char>,
    width: nat,
) -> (Seq<Seq<char>>, Seq<char>, nat) {
    let wl = byte_len(word);
    let sep: nat = if cur.len() == 0 {
        0
    } else {
        1
    };
    let flush = clen + wl + sep > width && cur.len() > 0;
    let l1 = if flush {
        lines.push(trim_end_ws(cur))
    } else {
        lines
    };
    let c1 = if flush {
        Seq::<char>::empty()
    } else {
        cur
    };
    let n1: nat = if flush {
        0
    } else {
        clen
    };
    if wl > width {
        let l2 = if c1.len() > 0 {
            l1.push(trim_end_ws(c1))
        } else {
            l1
        };
        (l2 + char_wrap(word, width), Seq::empty(), 0)
    } else if c1.len() > 0 {
        (l1, c1.push(' ') + word, n1 + 1 + wl)
    } else {
        (l1, word, n1 + wl)
    }
}

/// Word wrapping of `words` from index `k` on, from the given state.
pub open spec fn word_wrap_from(
    words: Seq<Seq<char>>,
    k: int,
    lines: Seq<Seq<char>>,
    cur: Seq<char>,
    clen: nat,
    width: nat,
) -> Seq<Seq<char>>
    decreases words.len() - k,
{
    if k < 0 || k >= words.len() {
        let l = if cur.len() > 0 {
            lines.push(cur)
        } else {
            lines
        };
        if l.len() == 0 {
            seq![Seq::empty()]
        } else {
            l
        }
    } else {
        let (l, c, n) = word_step(lines, cur, clen, words[k], width);
        word_wrap_from(words, k + 1, l, c, n, width)
    }
}

/// `s` broken between words at `width` bytes.
pub open spec fn word_wrap(s: Seq<char>, width: nat) -> Seq<Seq<char>> {
    word_wrap_from(words_of(s), 0, Seq::empty(), Seq::empty(), 0, width)
}

/// What `wrap_text` gives.
pub open spec fn wrap_text_spec(text: Seq<char>, c: WrapConfig) -> Seq<Seq<char>> {
    if c.mode == WrapMode::NoWrap || c.width == 0 {
        seq![text]
    } else if c.mode == WrapMode::Word {
        word_wrap(text, c.width as nat)
    } else {
        char_wrap(text, c.width as nat)
    }
}

/// `text` broken into lines as the configuration says; the text as one line when wrapping
/// is off or the width is 0.
pub fn wrap_text(text: &str, config: &WrapConfig) -> (res: Vec<String>)
    ensures
        views(res@) == wrap_text_spec(text@, *config),
{
    if config.mode == WrapMode::NoWrap || config.width == 0 {
        let mut v: Vec<String> = Vec::new();
        v.push(owned(text));
        assert(views(v@) =~= seq![text@]);
        return v;
    }
    match config.mode {
        WrapMode::Word => wrap_word_mode(text, config.width),
        _ => wrap_character_mode(text, config.width),
    }
}

/// `text` broken character by character (see `char_wrap`).
fn wrap_character_mode(text: &str, width: usize) -> (res: Vec<String>)
    ensures
        views(res@) == char_wrap(text@, width as nat),
{
    let v = chars_of(text);
    let mut lines: Vec<String> = Vec::new();
    let mut current = String::new();
    let mut i: usize = 0;
    while i < v.len()
        invariant
            i <= v.len(),
            v@ == text@,
            views(lines@) + char_wrap_from(v@, i as int, current@, width as nat) == char_wrap_from(
                v@,
                0,
                Seq::empty(),
                width as nat,
            ),
        decreases v.len() - i,
    {
        let ghost before = views(lines@);
        let ghost cur = current@;
        let n = current.as_str().as_bytes().len();
        if n >= width && n > 0 {
            assert(cur.len() > 0);
            lines.push(current);
            assert(views(lines@) =~= before.push(cur));
            current = String::new();
            push_char(&mut current, v[i]);
            assert(current@ =~= seq![v@[i as int]]);
            assert(views(lines@) + char_wrap_from(v@, i + 1, current@, width as nat) =~= before
                + char_wrap_from(v@, i as int, cur, width as nat));
        } else {
            proof {
                if cur.len() > 0 {
                    assert(byte_len(cur) > 0) by {
                        assert(cur =~= seq![cur[0]] + cur.drop_first());
                    }
                }
            }
            push_char(&mut current, v[i]);
        }
        i = i + 1;
    }
    let ghost before = views(lines@);
    if current.as_str().is_empty() == false {
        let ghost cur = current@;
        lines.push(current);
        assert(views(lines@) =~= before.push(cur));
    }
    if lines.len() == 0 {
        lines.push(String::new());
        assert(views(lines@) =~= seq![Seq::<char>::empty()]);
    }
    lines
}

/// `text` broken between words (see `word_wrap`).
fn wrap_word_mode(text: &str, width: usize) -> (res: Vec<String>)
    ensures
        views(res@) == word_wrap(text@, width as nat),
{
    let words = split_whitespace(text);
    let mut lines: Vec<String> = Vec::new();
    let mut current = String::new();
    let mut clen: usize = 0;
    let mut k: usize = 0;
    assert(views(lines@) =~= Seq::<Seq<char>>::empty());
    assert(current@ =~= Seq::<char>::empty());
    while k < words.len()
        invariant
            k <= words.len(),
            views(words@) == words_of(text@),
            clen <= width,
            current@.len() == 0 ==> clen == 0,
            word_wrap_from(views(words@), k as int, views(lines@), current@, clen as nat, width as nat)
                == word_wrap(text@, width as nat),
        decreases words.len() - k,
    {
        let word = &words[k];
        assert(views(words@)[k as int] == word@);
        let ghost l0 = views(lines@);
        let ghost c0 = current@;
        let ghost n0 = clen as nat;
        let wl = word.as_str().as_bytes().len();
        assert(wl == byte_len(word@));
        let sep: usize = if current.as_str().is_empty() {
            0
        } else {
            1
        };
        if (clen as u128) + (wl as u128) + (sep as u128) > (width as u128) && !current.as_str().is_empty() {
            let ghost before = views(lines@);
            let t = trim_end(current.as_str());
            lines.push(t);
            assert(views(lines@) =~= before.push(t@));
            current = String::new();
            clen = 0;
        }
        if wl > width {
            if !current.as_str().is_empty() {
                let ghost before = views(lines@);
                let t = trim_end(current.as_str());
                lines.push(t);
                assert(views(lines@) =~= before.push(t@));
                current = String::new();
                clen = 0;
            }
            let pieces = wrap_character_mode(word.as_str(), width);
            let ghost before = views(lines@);
            let mut j: usize = 0;
            while j < pieces.len()
                invariant
                    j <= pieces.len(),
                    views(lines@) == before + views(pieces@).take(j as int),
                decreases pieces.len() - j,
            {
                let piece = owned(pieces[j].as_str());
                let ghost b2 = views(lines@);
                lines.push(piece);
                assert(views(lines@) =~= b2.push(piece@));
                assert(views(lines@) =~= before + views(pieces@).take(j + 1));
                j = j + 1;
            }
            assert(views(pieces@).take(j as int) =~= views(pieces@));
        } else {
            if !current.as_str().is_empty() {
                push_char(&mut current, ' ');
                clen = clen + 1;
            }
            push_str(&mut current, word.as_str());
            clen = clen + wl;
        }
        proof {
            let (sl, sc, sn) = word_step(l0, c0, n0, word@, width as nat);
            assert(views(lines@) =~= sl);
            assert(current@ =~= sc);
            assert(clen as nat == sn);
        }
        k = k + 1;
    }
    if !current.as_str().is_empty() {
        let ghost before = views(lines@);
        let ghost cur = current@;
        lines.push(current);
        assert(views(lines@) =~= before.push(cur));
    }
    if lines.len() == 0 {
        lines.push(String::new());
        assert(views(lines@) =~= seq![Seq::<char>::empty()]);
    }
    lines
}

/// The number of lines `text` is broken into.
pub fn calculate_wrapped_height(text: &str, config: &WrapConfig) -> (res: usize)
    ensures
        res == wrap_text_spec(text@, *config).len(),
{
    wrap_text(text, config).len()
}

} // verus!
