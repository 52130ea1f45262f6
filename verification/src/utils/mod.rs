pub mod ansi;
pub mod formatting;
pub mod html;
pub mod unicode;
pub mod wrapping;

pub use unicode::{
    calculate_grapheme_width, calculate_string_width, justify_string, pad_string, truncate_string,
};
pub use wrapping::{calculate_cell_height, wrap_cell, wrap_text};
