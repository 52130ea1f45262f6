use crate::alignment::{Alignment, ColumnConfig};
use crate::column_arrays::{sized_column, ColumnArrayBuilder, ColumnConfigArray};
use vstd::prelude::*;

verus! {

/// One column per width: the first left-aligned (a description), the rest right-aligned
/// (numbers).
pub fn financial_columns(widths: &[usize]) -> (res: ColumnConfigArray)
    ensures
        res.configs@.len() == widths@.len(),
        forall|k: int|
            0 <= k < widths@.len() ==> sized_column(
                #[trigger] res.configs@[k],
                widths@[k],
                if k == 0 {
                    Alignment::Left
                } else {
                    Alignment::Right
                },
            ),
        !res.repeat_pattern,
{
    let mut builder = ColumnArrayBuilder::new();
    if widths.len() > 0 {
        builder = builder.left_column(widths[0]);
    }
    let mut i: usize = 1;
    while i < widths.len()
        invariant
            1 <= i,
            widths@.len() > 0 ==> i <= widths@.len(),
            widths@.len() == 0 ==> builder.configs@.len() == 0,
            widths@.len() > 0 ==> builder.configs@.len() == i,
            !builder.repeat_pattern,
            forall|k: int|
                0 <= k < builder.configs@.len() ==> sized_column(
                    #[trigger] builder.configs@[k],
                    widths@[k],
                    if k == 0 {
                        Alignment::Left
                    } else {
                        Alignment::Right
                    },
                ),
        decreases widths.len() - i,
    {
        let ghost prev = builder.configs@;
        builder = builder.right_column(widths[i]);
        assert(builder.configs@ =~= prev.push(builder.configs@.last()));
        i = i + 1;
    }
    builder.build()
}

/// One column per width, alternately left- and right-aligned.
pub fn mixed_content(widths: &[usize]) -> (res: ColumnConfigArray)
    ensures
        res.configs@.len() == widths@.len(),
        forall|k: int|
            0 <= k < widths@.len() ==> sized_column(
                #[trigger] res.configs@[k],
                widths@[k],
                if k % 2 == 0 {
                    Alignment::Left
                } else {
                    Alignment::Right
                },
            ),
        !res.repeat_pattern,
{
    let r = ColumnArrayBuilder::new().alternating_alignment(widths).build();
    assert forall|k: int| 0 <= k < widths@.len() implies sized_column(
        #[trigger] r.configs@[k],
        widths@[k],
        if k % 2 == 0 {
            Alignment::Left
        } else {
            Alignment::Right
        },
    ) by {
        assert(r.configs@[0 + k] == r.configs@[k]);
    }
    r
}

/// `count` centred columns of the given width.
pub fn centered_headers(width: usize, count: usize) -> (res: ColumnConfigArray)
    ensures
        res.configs@.len() == count,
        forall|k: int| 0 <= k < count ==> sized_column(#[trigger] res.configs@[k], width, Alignment::Center),
        !res.repeat_pattern,
{
    let config = ColumnConfig::new().with_width(width).with_alignment(Alignment::Center);
    let mut v: Vec<ColumnConfig> = Vec::new();
    let mut i: usize = 0;
    while i < count
        invariant
            i <= count,
            v@.len() == i,
            sized_column(config, width, Alignment::Center),
            forall|k: int| 0 <= k < i ==> #[trigger] v@[k] == config,
        decreases count - i,
    {
        v.push(config.duplicate());
        i = i + 1;
    }
    ColumnConfigArray::new(v)
}

/// The given columns, cycled over any number of columns.
pub fn repeating_pattern(pattern: Vec<ColumnConfig>) -> (res: ColumnConfigArray)
    ensures
        res.configs == pattern,
        res.repeat_pattern,
{
    ColumnConfigArray::new(pattern).with_repeat_pattern()
}

} // verus!
