pub mod colors;

use crate::text::{chars_of, concat3, decimal, owned, push_char, push_str, spaces, spaces_string, usize_to_string};
use crate::types::Alignment;
use crate::utils::ansi::{byte_len, lemma_byte_len_concat};
use vstd::prelude::*;
use vstd::utf8::encode_utf8;

verus! {

/// Whether a character has the Unicode `Alphabetic` property, as `char::is_alphabetic` says.
pub uninterp spec fn alphabetic(c: char) -> bool;

/// `char::is_alphabetic`: whether the character has the Unicode `Alphabetic` property. Its
/// documentation makes the ASCII letters alphabetic and no other ASCII character; what it
/// gives elsewhere is left to the name `alphabetic`.
#[verifier::external_body]
fn char_is_alphabetic(c: char) -> (res: bool)
    ensures
        res == alphabetic(c),
        ('a' <= c <= 'z' || 'A' <= c <= 'Z') ==> res,
        (c as u32) < 0x80 && !('a' <= c <= 'z' || 'A' <= c <= 'Z') ==> !res,
{
    c.is_alphabetic()
}

/// A kind of escape sequence.
#[derive(Debug, Clone, PartialEq)]
pub enum AnsiSequence {
    Reset,
    Color(u8),
    BackgroundColor(u8),
    Bold,
    Italic,
    Underline,
    Other(String),
}

/// The text of an escape sequence.
pub open spec fn sequence_text(s: AnsiSequence) -> Seq<char> {
    match s {
        AnsiSequence::Reset => "\x1b[0m"@,
        AnsiSequence::Color(c) => "\x1b["@ + decimal(c as nat) + "m"@,
        AnsiSequence::BackgroundColor(c) => "\x1b["@ + decimal(c as nat) + "m"@,
        AnsiSequence::Bold => "\x1b[1m"@,
        AnsiSequence::Italic => "\x1b[3m"@,
        AnsiSequence::Underline => "\x1b[4m"@,
        AnsiSequence::Other(t) => t@,
    }
}

impl AnsiSequence {
    /// The text of the sequence (see `sequence_text`).
    pub fn to_string(&self) -> (res: String)
        ensures
            res@ == sequence_text(*self),
    {
        match self {
            AnsiSequence::Reset => owned("\x1b[0m"),
            AnsiSequence::Color(c) => concat3("\x1b[", usize_to_string(*c as usize).as_str(), "m"),
            AnsiSequence::BackgroundColor(c) => concat3("\x1b[", usize_to_string(*c as usize).as_str(), "m"),
            AnsiSequence::Bold => owned("\x1b[1m"),
            AnsiSequence::Italic => owned("\x1b[3m"),
            AnsiSequence::Underline => owned("\x1b[4m"),
            AnsiSequence::Other(t) => owned(t.as_str()),
        }
    }
}

/// Whether an escape character followed by `[` stands at `i`.
pub open spec fn esc_at(s: Seq<char>, i: int) -> bool {
    0 <= i && i + 1 < s.len() && s[i] == '\x1b' && s[i + 1] == '['
}

/// The text from `i` on without escape sequences: an escape character followed by `[`
/// starts a sequence that runs to the next alphabetic character; `skip` says that one has
/// started.
pub open spec fn strip_from(s: Seq<char>, i: int, skip: bool) -> Seq<char>
    decreases s.len() - i,
{
    if i < 0 || i >= s.len() {
        Seq::empty()
    } else if skip {
        strip_from(s, i + 1, !alphabetic(s[i]))
    } else if esc_at(s, i) {
        strip_from(s, i + 2, true)
    } else {
        seq![s[i]] + strip_from(s, i + 1, false)
    }
}

/// The text without its escape sequences (see `strip_from`).
pub fn strip_ansi_sequences(text: &str) -> (res: String)
    ensures
        res@ == strip_from(text@, 0, false),
{
    let v = chars_of(text);
    let mut result = String::new();
    let mut i: usize = 0;
    let mut skip = false;
    while i < v.len()
        invariant
            i <= v@.len(),
            v@ == text@,
            result@ + strip_from(v@, i as int, skip) == strip_from(v@, 0, false),
        decreases v.len() - i,
    {
        let ghost before = result@;
        if skip {
            skip = !char_is_alphabetic(v[i]);
            i = i + 1;
        } else if i + 1 < v.len() && v[i] == '\x1b' && v[i + 1] == '[' {
            skip = true;
            i = i + 2;
        } else {
            push_char(&mut result, v[i]);
            i = i + 1;
            assert(before + strip_from(v@, i - 1, false) =~= result@ + strip_from(v@, i as int, false));
        }
    }
    assert(result@ + strip_from(v@, i as int, skip) =~= result@);
    result
}

/// The number of bytes of the text without its escape sequences.
pub fn ansi_display_width(text: &str) -> (res: usize)
    ensures
        res == byte_len(strip_from(text@, 0, false)),
{
    let s = strip_ansi_sequences(text);
    s.as_str().as_bytes().len()
}

/// The text from `i` on with at most `max - w` characters outside escape sequences; the
/// sequences are kept whole, those after the last kept character too.
pub open spec fn trunc_from(s: Seq<char>, i: int, skip: bool, w: nat, max: nat) -> Seq<char>
    decreases s.len() - i,
{
    if i < 0 || i >= s.len() {
        Seq::empty()
    } else if skip {
        seq![s[i]] + trunc_from(s, i + 1, !alphabetic(s[i]), w, max)
    } else if esc_at(s, i) {
        seq![s[i], s[i + 1]] + trunc_from(s, i + 2, true, w, max)
    } else if w >= max {
        trunc_from(s, i + 1, false, w, max)
    } else {
        seq![s[i]] + trunc_from(s, i + 1, false, w + 1, max)
    }
}

/// The text with every character outside escape sequences past the first `max_width` dropped;
/// escape sequences, also those after the cut, are kept (see `trunc_from`).
pub fn ansi_truncate_to_width(text: &str, max_width: usize) -> (res: String)
    ensures
        res@ == trunc_from(text@, 0, false, 0, max_width as nat),
{
    let v = chars_of(text);
    let mut result = String::new();
    let mut i: usize = 0;
    let mut skip = false;
    let mut w: usize = 0;
    while i < v.len()
        invariant
            i <= v@.len(),
            v@ == text@,
            w <= i,
            result@ + trunc_from(v@, i as int, skip, w as nat, max_width as nat) == trunc_from(
                v@,
                0,
                false,
                0,
                max_width as nat,
            ),
        decreases v.len() - i,
    {
        let ghost before = result@;
        if skip {
            push_char(&mut result, v[i]);
            skip = !char_is_alphabetic(v[i]);
            i = i + 1;
            assert(before + trunc_from(v@, i - 1, true, w as nat, max_width as nat) =~= result@ + trunc_from(
                v@,
                i as int,
                skip,
                w as nat,
                max_width as nat,
            ));
        } else if i + 1 < v.len() && v[i] == '\x1b' && v[i + 1] == '[' {
            push_char(&mut result, v[i]);
            push_char(&mut result, v[i + 1]);
            skip = true;
            i = i + 2;
            assert(before + trunc_from(v@, i - 2, false, w as nat, max_width as nat) =~= result@ + trunc_from(
                v@,
                i as int,
                true,
                w as nat,
                max_width as nat,
            ));
        } else if w >= max_width {
            i = i + 1;
        } else {
            push_char(&mut result, v[i]);
            i = i + 1;
            w = w + 1;
            assert(before + trunc_from(v@, i - 1, false, (w - 1) as nat, max_width as nat) =~= result@ + trunc_from(
                v@,
                i as int,
                false,
                w as nat,
                max_width as nat,
            ));
        }
    }
    assert(result@ + trunc_from(v@, i as int, skip, w as nat, max_width as nat) =~= result@);
    result
}

/// What `ansi_pad_to_width` gives: the text when it is already as wide; else filled with
/// spaces on the right (left and justify), on the left (right) or on both sides, the smaller
/// half on the left (center).
pub open spec fn ansi_pad_spec(text: Seq<char>, target: nat, alignment: Alignment) -> Seq<char> {
    let w = byte_len(strip_from(text, 0, false));
    if w >= target {
        text
    } else {
        let p = (target - w) as nat;
        match alignment {
            Alignment::Right => spaces(p) + text,
            Alignment::Center => spaces(p / 2) + text + spaces((p - p / 2) as nat),
            _ => text + spaces(p),
        }
    }
}

/// The text filled with spaces to `target_width` (see `ansi_pad_spec`).
pub fn ansi_pad_to_width(text: &str, target_width: usize, alignment: Alignment) -> (res: String)
    ensures
        res@ == ansi_pad_spec(text@, target_width as nat, alignment),
{
    let display_width = ansi_display_width(text);
    if display_width >= target_width {
        return owned(text);
    }
    let p = target_width - display_width;
    match alignment {
        Alignment::Right => crate::text::concat2(spaces_string(p).as_str(), text),
        Alignment::Center => concat3(spaces_string(p / 2).as_str(), text, spaces_string(p - p / 2).as_str()),
        _ => crate::text::concat2(text, spaces_string(p).as_str()),
    }
}

/// Whether `c` is an ASCII digit.
pub open spec fn is_digit(c: char) -> bool {
    '0' <= c <= '9'
}

/// The number the digits of `d` write.
pub open spec fn digits_value(d: Seq<char>) -> nat
    decreases d.len(),
{
    if d.len() == 0 {
        0
    } else {
        digits_value(d.drop_last()) * 10 + (d.last() as nat - '0' as nat) as nat
    }
}

/// What `u8::from_str` gives: an optional `+`, then at least one digit and nothing else,
/// writing at most 255.
pub open spec fn parse_u8_spec(q: Seq<char>) -> Option<u8> {
    let d = unsigned_digits(q);
    if d.len() > 0 && all_digits(d) && digits_value(d) <= 255 {
        Some(digits_value(d) as u8)
    } else {
        None
    }
}

/// A number's text without its leading `+`, if any.
pub open spec fn unsigned_digits(q: Seq<char>) -> Seq<char> {
    if q.len() > 0 && q[0] == '+' {
        q.drop_first()
    } else {
        q
    }
}

/// Whether every character is an ASCII digit.
pub open spec fn all_digits(d: Seq<char>) -> bool {
    forall|k: int| 0 <= k < d.len() ==> is_digit(#[trigger] d[k])
}

/// The kind of an escape sequence's text: reset, bold, italic and underline by their exact
/// text; `ESC[<n>m` with `n` a foreground (30-37, 90-97) or background (40-47, 100-107)
/// colour; anything else as it is.
pub open spec fn parse_sequence_spec(q: Seq<char>) -> AnsiSequence {
    if q == "\x1b[0m"@ {
        AnsiSequence::Reset
    } else if q == "\x1b[1m"@ {
        AnsiSequence::Bold
    } else if q == "\x1b[3m"@ {
        AnsiSequence::Italic
    } else if q == "\x1b[4m"@ {
        AnsiSequence::Underline
    } else {
        let code = if q.len() >= 3 && q[0] == '\x1b' && q[1] == '[' && q.last() == 'm' {
            parse_u8_spec(q.subrange(2, q.len() - 1))
        } else {
            None
        };
        match code {
            Some(c) => if (30 <= c <= 37) || (90 <= c <= 97) {
                AnsiSequence::Color(c)
            } else if (40 <= c <= 47) || (100 <= c <= 107) {
                AnsiSequence::BackgroundColor(c)
            } else {
                AnsiSequence::Other(owned_spec(q))
            },
            None => AnsiSequence::Other(owned_spec(q)),
        }
    }
}

/// A string holding `q`.
pub open spec fn owned_spec(q: Seq<char>) -> String {
    choose|s: String| s@ == q
}

/// The digits of `v[start..end]` as a `u8` (see `parse_u8_spec`).
fn parse_u8(v: &Vec<char>, start: usize, end: usize) -> (res: Option<u8>)
    requires
        start <= end <= v@.len(),
    ensures
        res == parse_u8_spec(v@.subrange(start as int, end as int)),
{
    let ghost q = v@.subrange(start as int, end as int);
    let mut s = start;
    if s < end && v[s] == '+' {
        s = s + 1;
    }
    let ghost d = v@.subrange(s as int, end as int);
    assert(d =~= unsigned_digits(q));
    if s == end {
        return None;
    }
    let mut value: u32 = 0;
    let mut i = s;
    while i < end
        invariant
            s <= i <= end <= v@.len(),
            q == v@.subrange(start as int, end as int),
            d == v@.subrange(s as int, end as int),
            d == unsigned_digits(q),
            value == digits_value(d.take(i - s)),
            value <= 255,
            forall|k: int| 0 <= k < i - s ==> is_digit(#[trigger] d[k]),
        decreases end - i,
    {
        let c = v[i];
        if !('0' <= c && c <= '9') {
            assert(!is_digit(d[i - s]));
            assert(!all_digits(d));
            assert(parse_u8_spec(q) is None);
            return None;
        }
        assert(d.take(i - s + 1).drop_last() =~= d.take(i - s));
        let digit: u32 = (c as u32) - ('0' as u32);
        value = value * 10 + digit;
        i = i + 1;
        if value > 255 {
            proof {
                lemma_digits_grow(d, (i - s) as int);
                if all_digits(d) {
                    assert(d.take(d.len() as int) =~= d);
                    assert(digits_value(d) > 255);
                }
            }
            assert(parse_u8_spec(q) is None);
            return None;
        }
    }
    assert(d.take(i - s) =~= d);
    Some(value as u8)
}

/// The value of more digits is no smaller.
pub(crate) proof fn lemma_digits_grow(d: Seq<char>, n: int)
    requires
        0 <= n <= d.len(),
        forall|k: int| 0 <= k < n ==> is_digit(#[trigger] d[k]),
    ensures
        forall|m: int| n <= m <= d.len() && (forall|k: int| 0 <= k < m ==> is_digit(#[trigger] d[k])) ==> digits_value(d.take(m)) >= digits_value(d.take(n)),
    decreases d.len() - n,
{
    if n < d.len() {
        if is_digit(d[n]) {
            assert(d.take(n + 1).drop_last() =~= d.take(n));
            lemma_digits_grow(d, n + 1);
        } else {
            assert forall|m: int| n <= m <= d.len() && (forall|k: int| 0 <= k < m ==> is_digit(#[trigger] d[k])) implies digits_value(d.take(m)) >= digits_value(d.take(n)) by {
                if m > n {
                    assert(is_digit(d[n]));
                }
            }
        }
    }
}

/// The kind of a sequence's text (see `parse_sequence_spec`).
fn parse_sequence(sequence: &str) -> (res: AnsiSequence)
    ensures
        match parse_sequence_spec(sequence@) {
            AnsiSequence::Other(t) => res matches AnsiSequence::Other(u) && u@ == t@,
            k => res == k,
        },
{
    proof {
        reveal_strlit("\x1b[0m");
        reveal_strlit("\x1b[1m");
        reveal_strlit("\x1b[3m");
        reveal_strlit("\x1b[4m");
    }
    if crate::text::str_eq(sequence, "\x1b[0m") {
        return AnsiSequence::Reset;
    }
    if crate::text::str_eq(sequence, "\x1b[1m") {
        return AnsiSequence::Bold;
    }
    if crate::text::str_eq(sequence, "\x1b[3m") {
        return AnsiSequence::Italic;
    }
    if crate::text::str_eq(sequence, "\x1b[4m") {
        return AnsiSequence::Underline;
    }
    let v = chars_of(sequence);
    let n = v.len();
    let code = if n >= 3 && v[0] == '\x1b' && v[1] == '[' && v[n - 1] == 'm' {
        parse_u8(&v, 2, n - 1)
    } else {
        None
    };
    let other = owned(sequence);
    proof {
        let t = owned_spec(sequence@);
        assert(exists|s: String| s@ == sequence@) by {
            assert(other@ == sequence@);
        }
    }
    match code {
        Some(c) => if (30 <= c && c <= 37) || (90 <= c && c <= 97) {
            AnsiSequence::Color(c)
        } else if (40 <= c && c <= 47) || (100 <= c && c <= 107) {
            AnsiSequence::BackgroundColor(c)
        } else {
            AnsiSequence::Other(other)
        },
        None => AnsiSequence::Other(other),
    }
}

/// The number of bytes of a character's UTF-8 encoding.
pub open spec fn char_bytes(c: char) -> nat {
    byte_len(seq![c])
}

/// The number of bytes of a character's UTF-8 encoding (see `char_bytes`).
fn char_len_utf8(c: char) -> (res: usize)
    ensures
        res == char_bytes(c),
{
    proof {
        assert(seq![c].drop_first() =~= Seq::<char>::empty());
        assert(encode_utf8(seq![c]) == vstd::utf8::encode_scalar(c as u32) + encode_utf8(Seq::<char>::empty()));
        vstd::utf8::char_is_scalar(c);
    }
    let u = c as u32;
    if u <= 0x7F {
        1
    } else if u <= 0x7FF {
        2
    } else if u <= 0xFFFF {
        3
    } else {
        4
    }
}

/// The sequences found from `i` on with their byte positions: in a sequence (`skip`), `cur`
/// holds its text so far and `start` its position; a sequence that is not ended by an
/// alphabetic character is dropped.
pub open spec fn parse_from(s: Seq<char>, i: int, skip: bool, cur: Seq<char>, start: nat) -> Seq<(nat, AnsiSequence)>
    decreases s.len() - i,
{
    if i < 0 || i >= s.len() {
        Seq::empty()
    } else if skip {
        if alphabetic(s[i]) {
            seq![(start, parse_sequence_spec(cur.push(s[i])))] + parse_from(s, i + 1, false, Seq::empty(), 0)
        } else {
            parse_from(s, i + 1, true, cur.push(s[i]), start)
        }
    } else if esc_at(s, i) {
        parse_from(s, i + 2, true, "\x1b["@, byte_len(s.take(i)))
    } else {
        parse_from(s, i + 1, false, cur, start)
    }
}

/// The views of found sequences: positions, and kinds with texts as character sequences.
pub open spec fn found_view(v: Seq<(usize, AnsiSequence)>) -> Seq<(nat, AnsiSequence)> {
    v.map_values(|p: (usize, AnsiSequence)| (p.0 as nat, p.1))
}

/// Whether two lists of found sequences agree: same positions, same kinds, the same texts
/// for `Other`.
pub open spec fn same_found(a: Seq<(usize, AnsiSequence)>, b: Seq<(nat, AnsiSequence)>) -> bool {
    &&& a.len() == b.len()
    &&& forall|k: int| 0 <= k < a.len() ==> (#[trigger] a[k]).0 as nat == b[k].0 && match b[k].1 {
        AnsiSequence::Other(t) => a[k].1 matches AnsiSequence::Other(u) && u@ == t@,
        x => a[k].1 == x,
    }
}

/// The escape sequences of the text with their byte positions (see `parse_from`).
pub fn parse_ansi_sequences(text: &str) -> (res: Vec<(usize, AnsiSequence)>)
    ensures
        same_found(res@, parse_from(text@, 0, false, Seq::empty(), 0)),
{
    let v = chars_of(text);
    let total = text.as_bytes().len();
    let mut out: Vec<(usize, AnsiSequence)> = Vec::new();
    let mut i: usize = 0;
    let mut pos: usize = 0;
    let mut skip = false;
    let mut cur = String::new();
    let mut start: usize = 0;
    let ghost goal = parse_from(v@, 0, false, Seq::empty(), 0);
    let ghost found: Seq<(nat, AnsiSequence)> = Seq::empty();
    proof {
        assert(v@.take(0) =~= Seq::<char>::empty());
        assert(encode_utf8(Seq::<char>::empty()) =~= Seq::<u8>::empty());
    }
    while i < v.len()
        invariant
            i <= v@.len(),
            v@ == text@,
            total == byte_len(text@),
            pos == byte_len(v@.take(i as int)),
            same_found(out@, found),
            found + parse_from(v@, i as int, skip, cur@, start as nat) == goal,
            !skip ==> cur@ == Seq::<char>::empty() && start == 0,
        decreases v.len() - i,
    {
        proof {
            lemma_prefix_bytes(v@, i as int);
            lemma_byte_len_prefix_bound(v@, i + 1);
        }
        let c = v[i];
        let cb = char_len_utf8(c);
        if skip {
            push_char(&mut cur, c);
            if char_is_alphabetic(c) {
                let kind = parse_sequence(cur.as_str());
                let ghost entry = (start as nat, parse_sequence_spec(cur@));
                out.push((start, kind));
                proof {
                    found = found.push(entry);
                }
                skip = false;
                cur = String::new();
                start = 0;
            }
            i = i + 1;
            pos = pos + cb;
        } else if i + 1 < v.len() && c == '\x1b' && v[i + 1] == '[' {
            let cb2 = char_len_utf8(v[i + 1]);
            proof {
                lemma_prefix_bytes(v@, i + 1);
                lemma_byte_len_prefix_bound(v@, i + 2);
            }
            start = pos;
            cur = owned("\x1b[");
            skip = true;
            i = i + 2;
            pos = pos + cb + cb2;
        } else {
            i = i + 1;
            pos = pos + cb;
        }
    }
    assert(found + parse_from(v@, i as int, skip, cur@, start as nat) =~= found);
    out
}

/// The bytes of a prefix one character longer.
proof fn lemma_prefix_bytes(s: Seq<char>, i: int)
    requires
        0 <= i < s.len(),
    ensures
        byte_len(s.take(i + 1)) == byte_len(s.take(i)) + char_bytes(s[i]),
{
    assert(s.take(i + 1) =~= s.take(i) + seq![s[i]]);
    lemma_byte_len_concat(s.take(i), seq![s[i]]);
}

/// A prefix has no more bytes than the whole.
proof fn lemma_byte_len_prefix_bound(s: Seq<char>, i: int)
    requires
        0 <= i <= s.len(),
    ensures
        byte_len(s.take(i)) <= byte_len(s),
{
    assert(s =~= s.take(i) + s.skip(i));
    lemma_byte_len_concat(s.take(i), s.skip(i));
}

} // verus!
