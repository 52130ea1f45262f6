use crate::pipeline::processor::{align_column_vertically, align_vertically_spec};
use crate::text::{nsub, owned, spread, spread_words, split_whitespace, views, words_of};
use crate::types::{Alignment, VerticalAlignment};
use crate::utils::ansi::{bytes_sum, justify_ok, lemma_words_bytes, pad_ansi_spec, pad_ansi_string, sum_word_bytes};
use vstd::prelude::*;

verus! {

/// Places text horizontally and vertically.
pub struct AlignmentProcessor;

/// What `distribute_content_evenly` gives: the content when it has at most one word; else
/// its words with the spaces that `width` leaves over their bytes spread over the gaps, the
/// first gaps one wider.
pub open spec fn distribute_spec(content: Seq<char>, width: nat) -> Seq<char> {
    let words = words_of(content);
    if words.len() <= 1 {
        content
    } else {
        let total = nsub(width, bytes_sum(words));
        let gaps = (words.len() - 1) as nat;
        spread(words, total / gaps, total % gaps)
    }
}

impl AlignmentProcessor {
    /// The text placed in `width` display columns (see `pad_ansi_spec`).
    pub fn align_text_horizontal(text: &str, width: usize, alignment: Alignment) -> (res: String)
        requires
            justify_ok(text@, width as nat, alignment),
        ensures
            res@ == pad_ansi_spec(text@, width as nat, alignment),
    {
        pad_ansi_string(text, width, alignment).content
    }

    /// The lines placed in `height` lines (see `align_vertically_spec`).
    pub fn align_text_vertical(lines: &[String], height: usize, alignment: VerticalAlignment) -> (res: Vec<String>)
        ensures
            views(res@) == align_vertically_spec(views(lines@), height as nat, alignment),
    {
        align_column_vertically(lines, height, alignment)
    }

    /// The words of the content spread over `width` (see `distribute_spec`).
    pub fn distribute_content_evenly(content: &str, width: usize) -> (res: String)
        ensures
            res@ == distribute_spec(content@, width as nat),
    {
        let words = split_whitespace(content);
        if words.len() <= 1 {
            return owned(content);
        }
        proof {
            lemma_words_bytes(content@);
        }
        let total_word_width = sum_word_bytes(&words, content.as_bytes().len());
        let total_spaces: usize = width.saturating_sub(total_word_width);
        let gaps: usize = words.len() - 1;
        let per: usize = total_spaces / gaps;
        let extra: usize = total_spaces % gaps;
        proof {
            if extra > 0 {
                assert(per * 2 <= total_spaces) by (nonlinear_arith)
                    requires
                        per == total_spaces / gaps,
                        gaps >= 2,
                ;
            }
        }
        spread_words(&words, per, extra)
    }
}

} // verus!
