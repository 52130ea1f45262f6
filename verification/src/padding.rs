use crate::text::{chars_of, concat2, concat3, owned, spaces, spaces_string};
use vstd::prelude::*;
use vstd::utf8::is_char_boundary;
use vstd::utf8::{decode_utf8, encode_utf8};

verus! {

/// Spaces on the left and right of a cell's content.
#[derive(Debug, Clone, Copy, PartialEq, Eq, Hash, Structural)]
pub struct Padding {
    pub left: usize,
    pub right: usize,
}

impl Default for Padding {
    /// One space on each side.
    fn default() -> (res: Self)
        ensures
            res == (Padding { left: 1, right: 1 }),
    {
        Padding { left: 1, right: 1 }
    }
}

impl Padding {
    /// The given spaces on each side.
    pub fn new(left: usize, right: usize) -> (res: Self)
        ensures
            res == (Padding { left, right }),
    {
        Padding { left, right }
    }

    /// The same spaces on both sides.
    pub fn symmetric(padding: usize) -> (res: Self)
        ensures
            res == (Padding { left: padding, right: padding }),
    {
        Padding { left: padding, right: padding }
    }

    /// No spaces.
    pub fn none() -> (res: Self)
        ensures
            res == (Padding { left: 0, right: 0 }),
    {
        Padding { left: 0, right: 0 }
    }

    /// The spaces on both sides together; the sum must fit in `usize`.
    pub fn total(&self) -> (res: usize)
        requires
            self.left + self.right <= usize::MAX,
        ensures
            res == self.left + self.right,
    {
        self.left + self.right
    }
}

/// `text` between the padding's spaces.
pub open spec fn apply_padding_spec(text: Seq<char>, padding: Padding) -> Seq<char> {
    spaces(padding.left as nat) + text + spaces(padding.right as nat)
}

/// `text` between the padding's spaces.
pub fn apply_padding(text: &str, padding: Padding) -> (res: String)
    ensures
        res@ == apply_padding_spec(text@, padding),
{
    concat3(spaces_string(padding.left).as_str(), text, spaces_string(padding.right).as_str())
}

/// `s` filled with spaces up to `width` characters.
pub open spec fn left_fill(s: Seq<char>, width: nat) -> Seq<char> {
    if s.len() >= width {
        s
    } else {
        s + spaces((width - s.len()) as nat)
    }
}

/// The content width left in `total` columns after the padding (0 when none is left).
pub open spec fn padded_content_width(total: nat, padding: Padding) -> nat {
    if total > padding.left + padding.right {
        (total - padding.left - padding.right) as nat
    } else {
        0
    }
}

/// What `apply_padding_with_width` gives: the text cut to the content width in bytes,
/// filled with spaces to that many characters, between the padding's spaces.
pub open spec fn apply_padding_with_width_spec(text: Seq<char>, total: nat, padding: Padding) -> Seq<char> {
    let cw = padded_content_width(total, padding);
    let bytes = encode_utf8(text);
    let cut = if bytes.len() > cw {
        decode_utf8(bytes.subrange(0, cw as int))
    } else {
        text
    };
    apply_padding_spec(left_fill(cut, cw), padding)
}

/// The text's content in `total_width` columns: cut to the content width (in bytes), filled
/// with spaces to it, then padded. A cut must fall between characters.
pub fn apply_padding_with_width(text: &str, total_width: usize, padding: Padding) -> (res: String)
    requires
        encode_utf8(text@).len() > padded_content_width(total_width as nat, padding)
            ==> is_char_boundary(
            encode_utf8(text@),
            padded_content_width(total_width as nat, padding) as int,
        ),
    ensures
        res@ == apply_padding_with_width_spec(text@, total_width as nat, padding),
{
    let content_width = total_width.saturating_sub(padding.left.saturating_add(padding.right));
    assert(content_width == padded_content_width(total_width as nat, padding));
    let truncated: String = if text.as_bytes().len() > content_width {
        let (head, _) = text.split_at(content_width);
        proof {
            vstd::utf8::encode_utf8_decode_utf8(head@);
        }
        owned(head)
    } else {
        owned(text)
    };
    let count = chars_of(truncated.as_str()).len();
    let filled = if count < content_width {
        concat2(truncated.as_str(), spaces_string(content_width - count).as_str())
    } else {
        truncated
    };
    apply_padding(filled.as_str(), padding)
}

} // verus!
