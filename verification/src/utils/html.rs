use crate::text::{chars_of, push_char, push_str};
use crate::utils::unicode::{char_width, unicode_char_width};
use vstd::prelude::*;

verus! {

/// The error `ansi_to_html::convert` gives for text it cannot read.
#[verifier::external_type_specification]
#[verifier::external_body]
pub struct ExAnsiHtmlError(ansi_to_html::Error);

/// The HTML that `ansi_to_html::convert` makes of a text (escape sequences turned into
/// tags, special HTML characters escaped), or `None` where it refuses the text.
pub uninterp spec fn ansi_html(text: Seq<char>) -> Option<Seq<char>>;

/// Calls `ansi_to_html::convert`. Claimed: the result is the HTML named by `ansi_html` for
/// the text, or an error exactly where that name holds none; what the HTML is, is not
/// stated.
#[verifier::external_body]
fn convert_ansi(text: &str) -> (res: Result<String, ansi_to_html::Error>)
    ensures
        match ansi_html(text@) {
            Some(h) => res matches Ok(s) && s@ == h,
            None => res is Err,
        },
{
    ansi_to_html::convert(text)
}

/// The opening of the fixed-width box around a two-column character.
pub open spec fn wide_open() -> Seq<char> {
    "<span style=\"display: inline-block; width: 2ch; text-align: center;\">"@
}

/// `s` with every character two columns wide (as `unicode_char_width` says, a character
/// without a width counting as one) put in a fixed-width box.
pub open spec fn fixed_width_emojis(s: Seq<char>) -> Seq<char>
    decreases s.len(),
{
    if s.len() == 0 {
        Seq::empty()
    } else {
        fixed_width_emojis(s.drop_last()) + if unicode_char_width(s.last()) == Some(2usize) {
            wide_open() + seq![s.last()] + "</span>"@
        } else {
            seq![s.last()]
        }
    }
}

/// HTML put in a block that keeps spacing, wide characters boxed.
pub open spec fn pre_block(html: Seq<char>) -> Seq<char> {
    "<pre style=\"margin: 0; font-family: monospace; white-space: pre;\">"@ + fixed_width_emojis(html)
        + "</pre>"@
}

/// `html` in a block that keeps spacing, with wide characters boxed (see `pre_block`).
pub fn html_in_pre(html: &str) -> (res: String)
    ensures
        res@ == pre_block(html@),
{
    let v = chars_of(html);
    let mut out = String::new();
    push_str(&mut out, "<pre style=\"margin: 0; font-family: monospace; white-space: pre;\">");
    let ghost start = out@;
    let mut i: usize = 0;
    while i < v.len()
        invariant
            i <= v@.len(),
            v@ == html@,
            out@ == start + fixed_width_emojis(v@.take(i as int)),
        decreases v@.len() - i,
    {
        assert(v@.take(i + 1).drop_last() =~= v@.take(i as int));
        let c = v[i];
        let w = char_width(c);
        if w == Some(2usize) {
            push_str(&mut out, "<span style=\"display: inline-block; width: 2ch; text-align: center;\">");
            push_char(&mut out, c);
            push_str(&mut out, "</span>");
        } else {
            push_char(&mut out, c);
        }
        i = i + 1;
        assert(out@ =~= start + fixed_width_emojis(v@.take(i as int)));
    }
    assert(v@.take(i as int) =~= v@);
    push_str(&mut out, "</pre>");
    out
}

/// Text with colour sequences as HTML in a block that keeps spacing: the converted HTML,
/// or the text itself where it cannot be converted (see `pre_block`).
pub fn convert_ansi_to_html(text: &str) -> (res: String)
    ensures
        res@ == pre_block(
            match ansi_html(text@) {
                Some(h) => h,
                None => text@,
            },
        ),
{
    match convert_ansi(text) {
        Ok(h) => html_in_pre(h.as_str()),
        Err(_) => html_in_pre(text),
    }
}

} // verus!
