use crate::pipeline::processor::align_vertically_spec;
use crate::text::views;
pub use crate::types::VerticalAlignment;
use vstd::prelude::*;

verus! {

/// Lines placed in `target_height` lines (see `align_vertically_spec`): unchanged when they
/// already fill it, else empty lines added below, above or around them.
pub fn apply_vertical_alignment(lines: Vec<String>, target_height: usize, alignment: VerticalAlignment) -> (res:
    Vec<String>)
    ensures
        views(res@) == align_vertically_spec(views(lines@), target_height as nat, alignment),
{
    crate::pipeline::processor::align_column_vertically(lines.as_slice(), target_height, alignment)
}

/// How many lines sit above content of `content_height` lines centred in `total_height`.
pub fn calculate_middle_position(content_height: usize, total_height: usize) -> (res: usize)
    ensures
        res == if content_height >= total_height {
            0
        } else {
            (total_height - content_height) / 2
        },
{
    if content_height >= total_height {
        return 0;
    }
    (total_height - content_height) / 2
}

} // verus!
