use vstd::prelude::*;

verus! {

/// Which horizontal lines a table is drawn with.
#[derive(Debug, Clone, Copy, PartialEq, Eq, Structural)]
pub struct RenderOptions {
    pub show_top_border: bool,
    pub show_bottom_border: bool,
    pub show_row_separators: bool,
}

impl Default for RenderOptions {
    /// Top and bottom lines, no lines between rows.
    fn default() -> (res: Self)
        ensures
            res == (RenderOptions {
                show_top_border: true,
                show_bottom_border: true,
                show_row_separators: false,
            }),
    {
        RenderOptions { show_top_border: true, show_bottom_border: true, show_row_separators: false }
    }
}

impl RenderOptions {
    /// No horizontal lines at all.
    pub fn no_horizontal_lines() -> (res: Self)
        ensures
            res == (RenderOptions {
                show_top_border: false,
                show_bottom_border: false,
                show_row_separators: false,
            }),
    {
        RenderOptions {
            show_top_border: false,
            show_bottom_border: false,
            show_row_separators: false,
        }
    }

    /// Every horizontal line, between rows too.
    pub fn with_row_separators() -> (res: Self)
        ensures
            res == (RenderOptions {
                show_top_border: true,
                show_bottom_border: true,
                show_row_separators: true,
            }),
    {
        RenderOptions { show_top_border: true, show_bottom_border: true, show_row_separators: true }
    }
}

} // verus!
