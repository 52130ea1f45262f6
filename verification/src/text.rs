use vstd::prelude::*;
use vstd::string::StringExecFns;

verus! {

/// A run of `n` space characters.
pub open spec fn spaces(n: nat) -> Seq<char> {
    Seq::new(n, |i: int| ' ')
}

/// `n` copies of the character `c`.
pub open spec fn char_run(c: char, n: nat) -> Seq<char> {
    Seq::new(n, |i: int| c)
}

/// `n` copies of `s`, one after another.
pub open spec fn repeat_seq(s: Seq<char>, n: nat) -> Seq<char>
    decreases n,
{
    if n == 0 {
        Seq::empty()
    } else {
        repeat_seq(s, (n - 1) as nat) + s
    }
}

/// The views of a sequence of strings.
pub open spec fn views(v: Seq<String>) -> Seq<Seq<char>> {
    v.map_values(|s: String| s@)
}

/// The pieces of `parts` with `sep` between neighbours.
pub open spec fn join_seq(parts: Seq<Seq<char>>, sep: Seq<char>) -> Seq<char>
    decreases parts.len(),
{
    if parts.len() == 0 {
        Seq::empty()
    } else if parts.len() == 1 {
        parts[0]
    } else {
        join_seq(parts.drop_last(), sep) + sep + parts.last()
    }
}

/// All pieces one after another.
pub open spec fn concat_all(parts: Seq<Seq<char>>) -> Seq<char>
    decreases parts.len(),
{
    if parts.len() == 0 {
        Seq::empty()
    } else {
        concat_all(parts.drop_last()) + parts.last()
    }
}

/// Joining one piece gives that piece.
pub proof fn lemma_concat_all_one(x: Seq<char>)
    ensures
        concat_all(seq![x]) == x,
{
    assert(seq![x].drop_last() =~= Seq::<Seq<char>>::empty());
    assert(concat_all(Seq::<Seq<char>>::empty()) =~= Seq::<char>::empty());
    assert(Seq::<char>::empty() + x =~= x);
}

/// Joining two lists of pieces joins what each gives.
pub proof fn lemma_concat_all_add(a: Seq<Seq<char>>, b: Seq<Seq<char>>)
    ensures
        concat_all(a + b) == concat_all(a) + concat_all(b),
    decreases b.len(),
{
    if b.len() == 0 {
        assert(a + b =~= a);
        assert(concat_all(a) + concat_all(b) =~= concat_all(a));
    } else {
        lemma_concat_all_add(a, b.drop_last());
        assert((a + b).drop_last() =~= a + b.drop_last());
        assert((a + b).last() == b.last());
        assert(concat_all(a) + concat_all(b) =~= concat_all(a) + concat_all(b.drop_last()) + b.last());
    }
}

/// Appends one character to the end of a string (`String::push`).
#[verifier::external_body]
pub fn push_char(s: &mut String, c: char)
    ensures
        final(s)@ == old(s)@.push(c),
{
    s.push(c);
}

/// Appends a string slice to the end of a string.
pub fn push_str(s: &mut String, t: &str)
    ensures
        final(s)@ == old(s)@ + t@,
{
    s.append(t);
}

/// An owned copy of a string slice.
pub fn owned(s: &str) -> (res: String)
    ensures
        res@ == s@,
{
    s.to_owned()
}

/// The empty string.
pub fn empty_string() -> (res: String)
    ensures
        res@ == Seq::<char>::empty(),
{
    String::new()
}

/// The characters of a string slice, in order.
pub fn chars_of(s: &str) -> (res: Vec<char>)
    ensures
        res@ == s@,
{
    let mut res: Vec<char> = Vec::new();
    for c in it: s.chars()
        invariant
            res@ == it.seq().take(it.index() as int),
    {
        res.push(c);
    }
    res
}

/// The string made of the characters `v[start..end]`.
pub fn string_from_chars(v: &Vec<char>, start: usize, end: usize) -> (res: String)
    requires
        start <= end <= v.len(),
    ensures
        res@ == v@.subrange(start as int, end as int),
{
    let mut res = String::new();
    let mut i: usize = start;
    while i < end
        invariant
            start <= i <= end <= v.len(),
            res@ == v@.subrange(start as int, i as int),
        decreases end - i,
    {
        push_char(&mut res, v[i]);
        i = i + 1;
        assert(res@ =~= v@.subrange(start as int, i as int));
    }
    res
}

/// A string of `n` copies of `c`.
pub fn repeat_char(c: char, n: usize) -> (res: String)
    ensures
        res@ == char_run(c, n as nat),
{
    let mut res = String::new();
    let mut i: usize = 0;
    while i < n
        invariant
            i <= n,
            res@ == char_run(c, i as nat),
        decreases n - i,
    {
        push_char(&mut res, c);
        i = i + 1;
        assert(res@ =~= char_run(c, i as nat));
    }
    res
}

/// A string of `n` spaces.
pub fn spaces_string(n: usize) -> (res: String)
    ensures
        res@ == spaces(n as nat),
{
    let res = repeat_char(' ', n);
    assert(res@ =~= spaces(n as nat));
    res
}

/// `n` copies of `s` (`str::repeat`).
pub fn repeat_str(s: &str, n: usize) -> (res: String)
    ensures
        res@ == repeat_seq(s@, n as nat),
{
    let mut res = String::new();
    let mut i: usize = 0;
    assert(res@ =~= repeat_seq(s@, 0));
    while i < n
        invariant
            i <= n,
            res@ == repeat_seq(s@, i as nat),
        decreases n - i,
    {
        push_str(&mut res, s);
        i = i + 1;
    }
    res
}

/// `a` followed by `b`.
pub fn concat2(a: &str, b: &str) -> (res: String)
    ensures
        res@ == a@ + b@,
{
    let mut res = owned(a);
    push_str(&mut res, b);
    res
}

/// `a`, then `b`, then `c`.
pub fn concat3(a: &str, b: &str, c: &str) -> (res: String)
    ensures
        res@ == a@ + b@ + c@,
{
    let mut res = owned(a);
    push_str(&mut res, b);
    push_str(&mut res, c);
    res
}

/// The strings of `parts` with `sep` between neighbours (`[String]::join`).
pub fn join_strings(parts: &Vec<String>, sep: &str) -> (res: String)
    ensures
        res@ == join_seq(views(parts@), sep@),
{
    let mut res = String::new();
    let mut i: usize = 0;
    while i < parts.len()
        invariant
            i <= parts.len(),
            res@ == join_seq(views(parts@).take(i as int), sep@),
        decreases parts.len() - i,
    {
        let ghost pre = views(parts@).take(i as int);
        if i > 0 {
            push_str(&mut res, sep);
        }
        push_str(&mut res, parts[i].as_str());
        i = i + 1;
        assert(views(parts@).take(i as int).drop_last() =~= pre);
    }
    assert(views(parts@).take(parts.len() as int) =~= views(parts@));
    res
}

/// A copy of a list of strings.
pub fn copy_strings(v: &Vec<String>) -> (res: Vec<String>)
    ensures
        views(res@) == views(v@),
{
    let mut res: Vec<String> = Vec::new();
    let mut i: usize = 0;
    while i < v.len()
        invariant
            i <= v.len(),
            views(res@) == views(v@).take(i as int),
        decreases v.len() - i,
    {
        let ghost before = views(res@);
        let item = owned(v[i].as_str());
        res.push(item);
        assert(views(res@) =~= before.push(item@));
        i = i + 1;
        assert(views(res@) =~= views(v@).take(i as int));
    }
    assert(views(v@).take(i as int) =~= views(v@));
    res
}

/// All strings of `parts`, one after another.
pub fn concat_strings(parts: &Vec<String>) -> (res: String)
    ensures
        res@ == concat_all(views(parts@)),
{
    let mut res = String::new();
    let mut i: usize = 0;
    while i < parts.len()
        invariant
            i <= parts.len(),
            res@ == concat_all(views(parts@).take(i as int)),
        decreases parts.len() - i,
    {
        let ghost pre = views(parts@).take(i as int);
        push_str(&mut res, parts[i].as_str());
        i = i + 1;
        assert(views(parts@).take(i as int).drop_last() =~= pre);
    }
    assert(views(parts@).take(parts.len() as int) =~= views(parts@));
    res
}

} // verus!

verus! {

/// Whether two string slices hold the same characters.
pub fn str_eq(a: &str, b: &str) -> (res: bool)
    ensures
        res == (a@ == b@),
{
    let ac = chars_of(a);
    let bc = chars_of(b);
    if ac.len() != bc.len() {
        return false;
    }
    let mut i: usize = 0;
    while i < ac.len()
        invariant
            i <= ac.len() == bc.len(),
            ac@ == a@,
            bc@ == b@,
            forall|j: int| 0 <= j < i ==> ac@[j] == bc@[j],
        decreases ac.len() - i,
    {
        if ac[i] != bc[i] {
            return false;
        }
        i = i + 1;
    }
    assert(ac@ =~= bc@);
    true
}

/// Whether a string slice is empty.
pub fn str_is_empty(s: &str) -> (res: bool)
    ensures
        res == (s@.len() == 0),
{
    s.is_empty()
}

/// Whether `s` holds the character `c`.
pub fn str_contains_char(s: &str, c: char) -> (res: bool)
    ensures
        res == s@.contains(c),
{
    let v = chars_of(s);
    let mut i: usize = 0;
    while i < v.len()
        invariant
            i <= v.len(),
            v@ == s@,
            forall|j: int| 0 <= j < i ==> v@[j] != c,
        decreases v.len() - i,
    {
        if v[i] == c {
            assert(s@[i as int] == c);
            return true;
        }
        i = i + 1;
    }
    false
}

/// Whether `s` starts with `p`.
pub open spec fn starts_with(s: Seq<char>, p: Seq<char>) -> bool {
    p.len() <= s.len() && s.subrange(0, p.len() as int) == p
}

/// Whether `s` ends with `p`.
pub open spec fn ends_with(s: Seq<char>, p: Seq<char>) -> bool {
    p.len() <= s.len() && s.subrange(s.len() - p.len(), s.len() as int) == p
}

/// Whether `s` starts with the character `c`.
pub fn str_starts_with_char(s: &str, c: char) -> (res: bool)
    ensures
        res == (s@.len() > 0 && s@[0] == c),
{
    let v = chars_of(s);
    v.len() > 0 && v[0] == c
}

/// Whether `s` ends with the character `c`.
pub fn str_ends_with_char(s: &str, c: char) -> (res: bool)
    ensures
        res == (s@.len() > 0 && s@[s@.len() - 1] == c),
{
    let v = chars_of(s);
    v.len() > 0 && v[v.len() - 1] == c
}

/// Whether `s` ends with `p`.
pub fn str_ends_with(s: &str, p: &str) -> (res: bool)
    ensures
        res == ends_with(s@, p@),
{
    let sv = chars_of(s);
    let pv = chars_of(p);
    if pv.len() > sv.len() {
        return false;
    }
    let off: usize = sv.len() - pv.len();
    let mut i: usize = 0;
    while i < pv.len()
        invariant
            i <= pv.len(),
            off + pv.len() == sv.len(),
            sv@ == s@,
            pv@ == p@,
            forall|j: int| 0 <= j < i ==> sv@[off + j] == pv@[j],
        decreases pv.len() - i,
    {
        if sv[off + i] != pv[i] {
            assert(s@.subrange(s@.len() - p@.len(), s@.len() as int)[i as int] != p@[i as int]);
            return false;
        }
        i = i + 1;
    }
    assert(s@.subrange(s@.len() - p@.len(), s@.len() as int) =~= p@);
    true
}

/// Whether `s` starts with `p`.
pub fn str_starts_with(s: &str, p: &str) -> (res: bool)
    ensures
        res == starts_with(s@, p@),
{
    let sv = chars_of(s);
    let pv = chars_of(p);
    if pv.len() > sv.len() {
        return false;
    }
    let mut i: usize = 0;
    while i < pv.len()
        invariant
            i <= pv.len() <= sv.len(),
            sv@ == s@,
            pv@ == p@,
            forall|j: int| 0 <= j < i ==> sv@[j] == pv@[j],
        decreases pv.len() - i,
    {
        if sv[i] != pv[i] {
            assert(s@.subrange(0, p@.len() as int)[i as int] != p@[i as int]);
            return false;
        }
        i = i + 1;
    }
    assert(s@.subrange(0, p@.len() as int) =~= p@);
    true
}

} // verus!

verus! {

/// What `str::to_lowercase` gives for a string: its Unicode lower-case form, in which most
/// characters map on their own and a few (a final capital sigma) by what surrounds them.
pub uninterp spec fn lowercase_of(s: Seq<char>) -> Seq<char>;

/// Whether every character of `s` is ASCII.
pub open spec fn all_ascii(s: Seq<char>) -> bool {
    forall|i: int| 0 <= i < s.len() ==> (#[trigger] s[i] as u32) < 128
}

/// A character's ASCII lower-case form: `A` to `Z` become `a` to `z`, any other stays.
pub open spec fn ascii_lower(c: char) -> char {
    if 'A' <= c && c <= 'Z' {
        ((c as u32) + 32) as char
    } else {
        c
    }
}

/// The lower-case form of a name: each letter of an ASCII name lowered on its own, any
/// other name by `lowercase_of`.
pub open spec fn lower_name(s: Seq<char>) -> Seq<char> {
    if all_ascii(s) {
        s.map_values(|c: char| ascii_lower(c))
    } else {
        lowercase_of(s)
    }
}

/// The lower-case form of a string, by `str::to_lowercase`: it depends on the characters
/// alone, and an ASCII string has each of its letters lowered (`char::to_ascii_lowercase`).
#[verifier::external_body]
pub fn to_lowercase(s: &str) -> (res: String)
    ensures
        res@ == lowercase_of(s@),
        all_ascii(s@) ==> res@ == s@.map_values(|c: char| ascii_lower(c)),
{
    s.to_lowercase()
}

} // verus!

verus! {

/// The number of leading characters of `s` that satisfy `p`.
pub open spec fn span_len(s: Seq<char>, p: spec_fn(char) -> bool) -> nat
    decreases s.len(),
{
    if s.len() > 0 && p(s[0]) {
        1 + span_len(s.drop_first(), p)
    } else {
        0
    }
}

/// Where the run of `p`-characters that starts at `i` ends, characterised by its end `j`.
pub proof fn lemma_span_len(s: Seq<char>, p: spec_fn(char) -> bool, i: int, j: int)
    requires
        0 <= i <= j <= s.len(),
        forall|k: int| i <= k < j ==> p(#[trigger] s[k]),
        j == s.len() || !p(s[j]),
    ensures
        span_len(s.skip(i), p) == j - i,
    decreases j - i,
{
    if i < j {
        lemma_span_len(s, p, i + 1, j);
        assert(s.skip(i).drop_first() =~= s.skip(i + 1));
    } else {
        if j < s.len() {
            assert(s.skip(i)[0] == s[j]);
        }
    }
}

/// The end of the run of `p`-characters of `v` that starts at `i`.
pub fn span_end(v: &Vec<char>, i: usize, Ghost(p): Ghost<spec_fn(char) -> bool>, q: impl Fn(char) -> bool) -> (j: usize)
    requires
        i <= v.len(),
        forall|c: char| #[trigger] q.requires((c,)),
        forall|c: char, r: bool| q.ensures((c,), r) ==> r == p(c),
    ensures
        i <= j <= v.len(),
        forall|k: int| i <= k < j ==> p(#[trigger] v@[k]),
        j == v.len() || !p(v@[j as int]),
        span_len(v@.skip(i as int), p) == j - i,
{
    let mut j: usize = i;
    while j < v.len() && q(v[j])
        invariant
            i <= j <= v.len(),
            forall|c: char| #[trigger] q.requires((c,)),
            forall|c: char, r: bool| q.ensures((c,), r) ==> r == p(c),
            forall|k: int| i <= k < j ==> p(#[trigger] v@[k]),
        decreases v.len() - j,
    {
        j = j + 1;
    }
    proof {
        lemma_span_len(v@, p, i as int, j as int);
    }
    j
}

/// The Unicode `White_Space` characters, which `str::split_whitespace` splits at.
pub open spec fn is_whitespace(c: char) -> bool {
    ('\u{9}' <= c && c <= '\u{d}') || c == ' ' || c == '\u{85}' || c == '\u{a0}' || c == '\u{1680}'
        || ('\u{2000}' <= c && c <= '\u{200a}') || c == '\u{2028}' || c == '\u{2029}' || c
        == '\u{202f}' || c == '\u{205f}' || c == '\u{3000}'
}

/// Whether `c` is a Unicode `White_Space` character (`char::is_whitespace`).
pub fn char_is_whitespace(c: char) -> (res: bool)
    ensures
        res == is_whitespace(c),
{
    ('\u{9}' <= c && c <= '\u{d}') || c == ' ' || c == '\u{85}' || c == '\u{a0}' || c == '\u{1680}'
        || ('\u{2000}' <= c && c <= '\u{200a}') || c == '\u{2028}' || c == '\u{2029}' || c
        == '\u{202f}' || c == '\u{205f}' || c == '\u{3000}'
}

/// The Unicode control characters, general category `Cc` (`char::is_control`).
pub open spec fn is_control(c: char) -> bool {
    c <= '\u{1f}' || ('\u{7f}' <= c && c <= '\u{9f}')
}

/// Whether `c` is a control character.
pub fn char_is_control(c: char) -> (res: bool)
    ensures
        res == is_control(c),
{
    c <= '\u{1f}' || ('\u{7f}' <= c && c <= '\u{9f}')
}

/// An ASCII letter (`char::is_ascii_alphabetic`).
pub open spec fn is_ascii_alpha(c: char) -> bool {
    ('a' <= c && c <= 'z') || ('A' <= c && c <= 'Z')
}

/// Whether `c` is an ASCII letter.
pub fn char_is_ascii_alpha(c: char) -> (res: bool)
    ensures
        res == is_ascii_alpha(c),
{
    ('a' <= c && c <= 'z') || ('A' <= c && c <= 'Z')
}

/// An ASCII digit.
pub open spec fn is_ascii_digit(c: char) -> bool {
    '0' <= c && c <= '9'
}

/// Not a whitespace character.
pub open spec fn not_whitespace(c: char) -> bool {
    !is_whitespace(c)
}

/// The words of `s`: maximal runs of non-whitespace characters (`str::split_whitespace`).
pub open spec fn words_of(s: Seq<char>) -> Seq<Seq<char>>
    decreases s.len(),
{
    if s.len() == 0 {
        Seq::empty()
    } else if is_whitespace(s[0]) {
        words_of(s.drop_first())
    } else {
        let e = span_len(s, |c: char| not_whitespace(c));
        if e < s.len() {
            seq![s.take(e as int)] + words_of(s.skip(e as int))
        } else {
            seq![s]
        }
    }
}

/// The words of `s`, in order (`str::split_whitespace`).
pub fn split_whitespace(s: &str) -> (res: Vec<String>)
    ensures
        views(res@) == words_of(s@),
{
    let v = chars_of(s);
    let mut res: Vec<String> = Vec::new();
    let mut i: usize = 0;
    assert(v@.skip(0) =~= v@);
    while i < v.len()
        invariant
            i <= v.len(),
            v@ == s@,
            views(res@) + words_of(v@.skip(i as int)) == words_of(v@),
        decreases v.len() - i,
    {
        let ghost rest = v@.skip(i as int);
        if char_is_whitespace(v[i]) {
            assert(rest.drop_first() =~= v@.skip(i + 1));
            i = i + 1;
        } else {
            let j = span_end(&v, i, Ghost(|c: char| not_whitespace(c)), |c: char| -> (r: bool) ensures r == not_whitespace(c) { !char_is_whitespace(c) });
            let w = string_from_chars(&v, i, j);
            let ghost old_res = views(res@);
            res.push(w);
            proof {
                assert(rest.take((j - i) as int) =~= v@.subrange(i as int, j as int));
                if j < v.len() {
                    assert(rest.skip((j - i) as int) =~= v@.skip(j as int));
                } else {
                    assert(rest =~= v@.subrange(i as int, j as int));
                    assert(v@.skip(j as int) =~= Seq::<char>::empty());
                }
                assert(views(res@) =~= old_res.push(w@));
                assert(views(res@) + words_of(v@.skip(j as int)) =~= old_res + words_of(rest));
            }
            i = j;
        }
    }
    assert(v@.skip(v.len() as int) =~= Seq::<char>::empty());
    assert(views(res@) + Seq::<Seq<char>>::empty() =~= views(res@));
    res
}

/// Not a line feed.
pub open spec fn not_newline(c: char) -> bool {
    c != '\n'
}

/// A line without its one trailing carriage return, if it has one.
pub open spec fn strip_cr(l: Seq<char>) -> Seq<char> {
    if l.len() > 0 && l.last() == '\r' {
        l.drop_last()
    } else {
        l
    }
}

/// The lines of `s` (`str::lines`): split at line feeds, a carriage return before a line feed
/// dropped, and no line after a final line feed.
pub open spec fn lines_of(s: Seq<char>) -> Seq<Seq<char>>
    decreases s.len(),
{
    if s.len() == 0 {
        Seq::empty()
    } else {
        let e = span_len(s, |c: char| not_newline(c));
        if e < s.len() {
            seq![strip_cr(s.take(e as int))] + lines_of(s.skip(e + 1 as int))
        } else {
            seq![strip_cr(s)]
        }
    }
}

/// The lines of `s`, in order (`str::lines`).
pub fn lines(s: &str) -> (res: Vec<String>)
    ensures
        views(res@) == lines_of(s@),
{
    let v = chars_of(s);
    let mut res: Vec<String> = Vec::new();
    let mut i: usize = 0;
    assert(v@.skip(0) =~= v@);
    while i < v.len()
        invariant
            i <= v.len(),
            v@ == s@,
            views(res@) + lines_of(v@.skip(i as int)) == lines_of(v@),
        decreases v.len() - i,
    {
        let ghost rest = v@.skip(i as int);
        let j = span_end(&v, i, Ghost(|c: char| not_newline(c)), |c: char| -> (r: bool) ensures r == not_newline(c) { c != '\n' });
        let end: usize = if j > i && v[j - 1] == '\r' { j - 1 } else { j };
        let l = string_from_chars(&v, i, end);
        let ghost old_res = views(res@);
        res.push(l);
        proof {
            assert(rest.take((j - i) as int) =~= v@.subrange(i as int, j as int));
            if j > i && v@[j - 1] == '\r' {
                assert(strip_cr(rest.take((j - i) as int)) =~= v@.subrange(i as int, end as int));
            } else {
                assert(strip_cr(rest.take((j - i) as int)) =~= v@.subrange(i as int, end as int));
            }
            assert(views(res@) =~= old_res.push(l@));
        }
        if j < v.len() {
            proof {
                assert(rest.skip((j - i + 1) as int) =~= v@.skip(j + 1));
                assert(views(res@) + lines_of(v@.skip(j + 1)) =~= old_res + lines_of(rest));
            }
            i = j + 1;
        } else {
            proof {
                assert(rest =~= v@.subrange(i as int, j as int));
                assert(v@.skip(j as int) =~= Seq::<char>::empty());
                assert(views(res@) + lines_of(v@.skip(j as int)) =~= old_res + lines_of(rest));
            }
            i = j;
        }
    }
    assert(v@.skip(v.len() as int) =~= Seq::<char>::empty());
    assert(views(res@) + Seq::<Seq<char>>::empty() =~= views(res@));
    res
}

} // verus!

verus! {

/// `a - b`, or 0 when `b` is larger.
pub open spec fn nsub(a: nat, b: nat) -> nat {
    if a > b {
        (a - b) as nat
    } else {
        0
    }
}

/// The words with `per` spaces between neighbours and one more space in each of the first
/// `extra` gaps.
pub open spec fn spread(words: Seq<Seq<char>>, per: nat, extra: nat) -> Seq<char>
    decreases words.len(),
{
    if words.len() == 0 {
        Seq::empty()
    } else if words.len() == 1 {
        words[0]
    } else {
        words[0] + spaces(per + if extra > 0 { 1nat } else { 0nat }) + spread(
            words.drop_first(),
            per,
            nsub(extra, 1),
        )
    }
}

/// The words with `per` spaces between neighbours and one more in each of the first `extra`
/// gaps.
pub fn spread_words(words: &Vec<String>, per: usize, extra: usize) -> (res: String)
    requires
        extra == 0 || per < usize::MAX,
    ensures
        res@ == spread(views(words@), per as nat, extra as nat),
{
    let mut res = String::new();
    let mut i: usize = 0;
    let n = words.len();
    assert(views(words@).skip(0) =~= views(words@));
    while i < n
        invariant
            i <= n == words.len(),
            extra == 0 || per < usize::MAX,
            res@ + spread(views(words@).skip(i as int), per as nat, nsub(extra as nat, i as nat))
                == spread(views(words@), per as nat, extra as nat),
        decreases n - i,
    {
        let ghost rest = views(words@).skip(i as int);
        push_str(&mut res, words[i].as_str());
        if i + 1 < n {
            let gap: usize = if i < extra { per + 1 } else { per };
            let sp = spaces_string(gap);
            push_str(&mut res, sp.as_str());
            assert(rest.drop_first() =~= views(words@).skip(i + 1));
            assert(nsub(nsub(extra as nat, i as nat), 1) == nsub(extra as nat, (i + 1) as nat));
            assert(res@ =~= (res@.subrange(0, res@.len() - sp@.len() - words@[i as int]@.len()))
                + rest[0] + sp@);
        } else {
            assert(rest.len() == 1);
            assert(views(words@).skip(i + 1) =~= Seq::<Seq<char>>::empty());
        }
        i = i + 1;
    }
    assert(views(words@).skip(n as int) =~= Seq::<Seq<char>>::empty());
    res
}

} // verus!

verus! {

/// The decimal digit for `d` (0 to 9).
pub open spec fn digit_char(d: nat) -> char {
    if d == 0 {
        '0'
    } else if d == 1 {
        '1'
    } else if d == 2 {
        '2'
    } else if d == 3 {
        '3'
    } else if d == 4 {
        '4'
    } else if d == 5 {
        '5'
    } else if d == 6 {
        '6'
    } else if d == 7 {
        '7'
    } else if d == 8 {
        '8'
    } else {
        '9'
    }
}

/// The decimal digits of `n`, without leading zeros (`"0"` for 0).
pub open spec fn decimal(n: nat) -> Seq<char>
    decreases n,
{
    if n < 10 {
        seq![digit_char(n)]
    } else {
        decimal(n / 10).push(digit_char(n % 10))
    }
}

/// The decimal digit for `d`.
fn digit_of(d: usize) -> (res: char)
    requires
        d < 10,
    ensures
        res == digit_char(d as nat),
{
    if d == 0 {
        '0'
    } else if d == 1 {
        '1'
    } else if d == 2 {
        '2'
    } else if d == 3 {
        '3'
    } else if d == 4 {
        '4'
    } else if d == 5 {
        '5'
    } else if d == 6 {
        '6'
    } else if d == 7 {
        '7'
    } else if d == 8 {
        '8'
    } else {
        '9'
    }
}

/// `n` written in decimal (`usize::to_string`).
pub fn usize_to_string(n: usize) -> (res: String)
    ensures
        res@ == decimal(n as nat),
    decreases n,
{
    if n < 10 {
        let mut s = String::new();
        push_char(&mut s, digit_of(n));
        assert(s@ =~= seq![digit_char(n as nat)]);
        s
    } else {
        let mut s = usize_to_string(n / 10);
        push_char(&mut s, digit_of(n % 10));
        s
    }
}

} // verus!

verus! {

/// `s` without its leading whitespace.
pub open spec fn trim_start_ws(s: Seq<char>) -> Seq<char>
    decreases s.len(),
{
    if s.len() > 0 && is_whitespace(s[0]) {
        trim_start_ws(s.drop_first())
    } else {
        s
    }
}

/// `s` without its leading characters `c`.
pub open spec fn trim_start_char(s: Seq<char>, c: char) -> Seq<char>
    decreases s.len(),
{
    if s.len() > 0 && s[0] == c {
        trim_start_char(s.drop_first(), c)
    } else {
        s
    }
}

/// `s` without its trailing characters `c`.
pub open spec fn trim_end_char(s: Seq<char>, c: char) -> Seq<char>
    decreases s.len(),
{
    if s.len() > 0 && s.last() == c {
        trim_end_char(s.drop_last(), c)
    } else {
        s
    }
}

/// `s` without leading and trailing whitespace (`str::trim`).
pub open spec fn trim_spec(s: Seq<char>) -> Seq<char> {
    trim_start_ws(crate::wrapping::trim_end_ws(s))
}

/// `s` without leading and trailing characters `c` (`str::trim_matches`).
pub open spec fn trim_matches_spec(s: Seq<char>, c: char) -> Seq<char> {
    trim_end_char(trim_start_char(s, c), c)
}

/// The characters of `v` from `i` on, without a leading run satisfying `p`, from the front.
fn skip_front(v: &Vec<char>, i: usize, end: usize, c: Option<char>) -> (res: usize)
    requires
        i <= end <= v.len(),
    ensures
        i <= res <= end,
        c matches Some(ch) ==> trim_start_char(v@.subrange(i as int, end as int), ch) == v@.subrange(res as int, end as int),
        c is None ==> trim_start_ws(v@.subrange(i as int, end as int)) == v@.subrange(res as int, end as int),
    decreases end - i,
{
    if i < end {
        let hit = match c {
            Some(ch) => v[i] == ch,
            None => char_is_whitespace(v[i]),
        };
        if hit {
            assert(v@.subrange(i as int, end as int).drop_first() =~= v@.subrange(i + 1, end as int));
            return skip_front(v, i + 1, end, c);
        }
    }
    i
}

/// The end of `v[start..end]` without a trailing run of `c` (or of whitespace).
fn skip_back(v: &Vec<char>, start: usize, end: usize, c: Option<char>) -> (res: usize)
    requires
        start <= end <= v.len(),
    ensures
        start <= res <= end,
        c matches Some(ch) ==> trim_end_char(v@.subrange(start as int, end as int), ch) == v@.subrange(start as int, res as int),
        c is None ==> crate::wrapping::trim_end_ws(v@.subrange(start as int, end as int)) == v@.subrange(start as int, res as int),
    decreases end - start,
{
    if start < end {
        let hit = match c {
            Some(ch) => v[end - 1] == ch,
            None => char_is_whitespace(v[end - 1]),
        };
        if hit {
            assert(v@.subrange(start as int, end as int).drop_last() =~= v@.subrange(start as int, end - 1));
            return skip_back(v, start, end - 1, c);
        }
    }
    end
}

/// `s` without leading and trailing whitespace (`str::trim`).
pub fn trim(s: &str) -> (res: String)
    ensures
        res@ == trim_spec(s@),
{
    let v = chars_of(s);
    let e = skip_back(&v, 0, v.len(), None);
    let b = skip_front(&v, 0, e, None);
    assert(v@.subrange(0, v@.len() as int) =~= s@);
    string_from_chars(&v, b, e)
}

/// `s` without leading and trailing characters `c` (`str::trim_matches`).
pub fn trim_matches(s: &str, c: char) -> (res: String)
    ensures
        res@ == trim_matches_spec(s@, c),
{
    let v = chars_of(s);
    let b = skip_front(&v, 0, v.len(), Some(c));
    let e = skip_back(&v, b, v.len(), Some(c));
    assert(v@.subrange(0, v@.len() as int) =~= s@);
    string_from_chars(&v, b, e)
}

/// Whether `sep` occurs in `s` at index `j`.
pub open spec fn occurs_at(s: Seq<char>, sep: Seq<char>, j: int) -> bool {
    0 <= j && j + sep.len() <= s.len() && s.subrange(j, j + sep.len()) == sep
}

/// The first index from `i` on where a non-empty `sep` occurs in `s`.
pub open spec fn find_from(s: Seq<char>, sep: Seq<char>, i: int) -> Option<nat>
    decreases s.len() + 1 - i,
{
    if i < 0 || i + sep.len() > s.len() {
        None
    } else if occurs_at(s, sep, i) {
        Some(i as nat)
    } else {
        find_from(s, sep, i + 1)
    }
}

/// The pieces of `s` between occurrences of `sep` (`str::split`): for an empty separator,
/// an empty piece, each character, and an empty piece.
pub open spec fn split_pieces(s: Seq<char>, sep: Seq<char>) -> Seq<Seq<char>>
    decreases s.len(),
{
    if sep.len() == 0 {
        seq![Seq::<char>::empty()] + Seq::new(s.len(), |i: int| seq![s[i]]) + seq![Seq::<char>::empty()]
    } else {
        match find_from(s, sep, 0) {
            None => seq![s],
            Some(j) => if j + sep.len() <= s.len() {
                seq![s.take(j as int)] + split_pieces(s.skip((j + sep.len()) as int), sep)
            } else {
                seq![s]
            },
        }
    }
}

/// The first index from `i` on where `sep` (non-empty) occurs in `v`.
fn find_exec(v: &Vec<char>, sep: &Vec<char>, i: usize) -> (res: Option<usize>)
    requires
        sep@.len() > 0,
        i <= v@.len(),
    ensures
        res is None <==> find_from(v@, sep@, i as int) is None,
        res matches Some(j) ==> find_from(v@, sep@, i as int) == Some(j as nat),
        res matches Some(j) ==> j + sep@.len() <= v@.len() && i <= j,
    decreases v@.len() - i,
{
    if sep.len() > v.len() - i {
        return None;
    }
    let vl = v.len();
    let mut k: usize = 0;
    while k < sep.len()
        invariant
            k <= sep@.len(),
            vl == v@.len(),
            i + sep@.len() <= vl,
            forall|m: int| 0 <= m < k ==> v@[i + m] == sep@[m],
        decreases sep.len() - k,
    {
        assert(i + k < v@.len());
        if v[i + k] != sep[k] {
            assert(v@.subrange(i as int, i + sep@.len())[k as int] != sep@[k as int]);
            return find_exec(v, sep, i + 1);
        }
        k = k + 1;
    }
    assert(v@.subrange(i as int, i + sep@.len()) =~= sep@);
    Some(i)
}

/// The pieces of `s` between occurrences of `sep` (see `split_pieces`).
pub fn split_str(s: &str, sep: &str) -> (res: Vec<String>)
    ensures
        views(res@) == split_pieces(s@, sep@),
{
    let v = chars_of(s);
    let sv = chars_of(sep);
    let mut res: Vec<String> = Vec::new();
    if sv.len() == 0 {
        res.push(String::new());
        let mut i: usize = 0;
        while i < v.len()
            invariant
                i <= v@.len(),
                v@ == s@,
                views(res@) == seq![Seq::<char>::empty()] + Seq::new(i as nat, |k: int| seq![v@[k]]),
            decreases v.len() - i,
        {
            let mut one = String::new();
            push_char(&mut one, v[i]);
            assert(one@ =~= seq![v@[i as int]]);
            let ghost before = views(res@);
            res.push(one);
            assert(views(res@) =~= before.push(one@));
            i = i + 1;
            assert(views(res@) =~= seq![Seq::<char>::empty()] + Seq::new(i as nat, |k: int| seq![v@[k]]));
        }
        let ghost before = views(res@);
        res.push(String::new());
        assert(views(res@) =~= before.push(Seq::<char>::empty()));
        assert(views(res@) =~= split_pieces(s@, sep@));
        return res;
    }
    let mut i: usize = 0;
    assert(v@.skip(0) =~= v@);
    loop
        invariant
            i <= v@.len(),
            v@ == s@,
            sv@ == sep@,
            sv@.len() > 0,
            views(res@) + split_pieces(v@.skip(i as int), sv@) == split_pieces(v@, sv@),
        decreases v@.len() - i,
    {
        let ghost rest = v@.skip(i as int);
        let ghost before = views(res@);
        match find_exec(&v, &sv, i) {
            None => {
                proof {
                    lemma_find_shift(v@, sv@, i as int, 0);
                }
                let piece = string_from_chars(&v, i, v.len());
                res.push(piece);
                assert(rest =~= v@.subrange(i as int, v@.len() as int));
                assert(views(res@) =~= before.push(piece@));
                assert(views(res@) =~= before + split_pieces(rest, sv@));
                return res;
            },
            Some(j) => {
                proof {
                    lemma_find_shift(v@, sv@, i as int, 0);
                }
                let piece = string_from_chars(&v, i, j);
                res.push(piece);
                assert(rest.take(j - i) =~= v@.subrange(i as int, j as int));
                assert(rest.skip(j - i + sv@.len()) =~= v@.skip(j + sv@.len()));
                assert(views(res@) =~= before.push(piece@));
                assert(find_from(rest, sv@, 0) == Some((j - i) as nat));
                assert(split_pieces(rest, sv@) =~= seq![piece@] + split_pieces(v@.skip(j + sv@.len()), sv@));
                i = j + sv.len();
            },
        }
    }
}

/// Searching the tail of `s` from index `i` finds the occurrences of `s` shifted by `i`.
proof fn lemma_find_shift(s: Seq<char>, sep: Seq<char>, i: int, k: int)
    requires
        0 <= i <= s.len(),
        0 <= k,
        sep.len() > 0,
    ensures
        find_from(s.skip(i), sep, k) == match find_from(s, sep, i + k) {
            Some(j) => Some((j - i) as nat),
            None => None::<nat>,
        },
        find_from(s, sep, i + k) matches Some(j) ==> j >= i + k,
    decreases s.len() + 1 - i - k,
{
    if i + k + sep.len() > s.len() {
    } else {
        assert(s.skip(i).subrange(k, k + sep.len()) =~= s.subrange(i + k, i + k + sep.len()));
        if !occurs_at(s, sep, i + k) {
            lemma_find_shift(s, sep, i, k + 1);
        }
    }
}


/// `s` with every occurrence of a non-empty `pat` replaced by `rep`, left to right
/// (`str::replace`).
pub open spec fn replace_spec(s: Seq<char>, pat: Seq<char>, rep: Seq<char>) -> Seq<char> {
    join_seq(split_pieces(s, pat), rep)
}

/// `s` with every occurrence of a non-empty `pat` replaced by `rep` (see `replace_spec`).
pub fn str_replace(s: &str, pat: &str, rep: &str) -> (res: String)
    requires
        pat@.len() > 0,
    ensures
        res@ == replace_spec(s@, pat@, rep@),
{
    let parts = split_str(s, pat);
    join_strings(&parts, rep)
}

/// Whether `p` occurs in `s`.
pub open spec fn contains_spec(s: Seq<char>, p: Seq<char>) -> bool {
    find_from(s, p, 0) is Some
}

/// Whether `p` occurs in `s` (`str::contains`).
pub fn str_contains(s: &str, p: &str) -> (res: bool)
    ensures
        res == contains_spec(s@, p@),
{
    let v = chars_of(s);
    let pv = chars_of(p);
    if pv.len() == 0 {
        assert(occurs_at(s@, p@, 0)) by {
            assert(s@.subrange(0, 0) =~= p@);
        }
        return true;
    }
    find_exec(&v, &pv, 0).is_some()
}

/// The first index from `i` on where `c` stands in `s`.
pub open spec fn char_index_from(s: Seq<char>, c: char, i: int) -> Option<nat>
    decreases s.len() - i,
{
    if i < 0 || i >= s.len() {
        None
    } else if s[i] == c {
        Some(i as nat)
    } else {
        char_index_from(s, c, i + 1)
    }
}

/// The last index below `n` where `c` stands in `s`.
pub open spec fn char_index_before(s: Seq<char>, c: char, n: int) -> Option<nat>
    decreases n,
{
    if n <= 0 || n > s.len() {
        None
    } else if s[n - 1] == c {
        Some((n - 1) as nat)
    } else {
        char_index_before(s, c, n - 1)
    }
}

/// The first index where `c` stands in `v`.
pub fn find_char(v: &Vec<char>, c: char) -> (res: Option<usize>)
    ensures
        res is Some <==> char_index_from(v@, c, 0) is Some,
        res matches Some(k) ==> char_index_from(v@, c, 0) == Some(k as nat) && k < v@.len(),
{
    let mut i: usize = 0;
    while i < v.len()
        invariant
            i <= v@.len(),
            char_index_from(v@, c, 0) == char_index_from(v@, c, i as int),
        decreases v.len() - i,
    {
        if v[i] == c {
            return Some(i);
        }
        i = i + 1;
    }
    None
}

/// The last index where `c` stands in `v`.
pub fn rfind_char(v: &Vec<char>, c: char) -> (res: Option<usize>)
    ensures
        res is Some <==> char_index_before(v@, c, v@.len() as int) is Some,
        res matches Some(k) ==> char_index_before(v@, c, v@.len() as int) == Some(k as nat) && k < v@.len(),
{
    let mut n: usize = v.len();
    while n > 0
        invariant
            n <= v@.len(),
            char_index_before(v@, c, v@.len() as int) == char_index_before(v@, c, n as int),
        decreases n,
    {
        if v[n - 1] == c {
            return Some(n - 1);
        }
        n = n - 1;
    }
    None
}

} // verus!
