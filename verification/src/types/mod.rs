pub mod alignment;
pub mod borders;
pub mod config;

pub use alignment::{Alignment, VerticalAlignment};
pub use borders::{get_border_characters, BorderConfig, BorderUserConfig};
pub use config::{
    default_draw_horizontal_line, default_draw_vertical_line, CellConfig, CellCoordinates,
    CellUserConfig, ColumnConfig, ColumnUserConfig, RangeConfig, RangeCoordinate,
    SpanningCellConfig, StreamConfig, StreamUserConfig, TableConfig, TableUserConfig,
};

use crate::text::concat2;
use vstd::prelude::*;

verus! {

/// A table cell is a string.
pub type Cell = String;

/// A table row is a list of cells.
pub type Row = Vec<Cell>;

/// The ways a table can be refused.
#[derive(Debug, Clone, PartialEq, Eq)]
pub enum TableError {
    InvalidData,
    InvalidRowData,
    InconsistentRowLength,
    ControlCharacters,
    InvalidConfig(String),
    InvalidWidth,
    InvalidAlignment,
    EmptyBorderCharacters,
}

/// What a `TableError` says, as text.
pub open spec fn error_message(e: TableError) -> Seq<char> {
    match e {
        TableError::InvalidData => "Table data must be an array"@,
        TableError::InvalidRowData => "Table row data must be an array"@,
        TableError::InconsistentRowLength => "Table must have consistent number of cells"@,
        TableError::ControlCharacters => "Control characters are not allowed"@,
        TableError::InvalidConfig(m) => "Invalid configuration: "@ + m@,
        TableError::InvalidWidth => "Width must be positive"@,
        TableError::InvalidAlignment => "Invalid alignment value"@,
        TableError::EmptyBorderCharacters => "Border characters cannot be empty"@,
    }
}

impl TableError {
    /// The error's message.
    pub fn message(&self) -> (res: String)
        ensures
            res@ == error_message(*self),
    {
        match self {
            TableError::InvalidData => crate::text::owned("Table data must be an array"),
            TableError::InvalidRowData => crate::text::owned("Table row data must be an array"),
            TableError::InconsistentRowLength => crate::text::owned(
                "Table must have consistent number of cells",
            ),
            TableError::ControlCharacters => crate::text::owned(
                "Control characters are not allowed",
            ),
            TableError::InvalidConfig(m) => concat2("Invalid configuration: ", m.as_str()),
            TableError::InvalidWidth => crate::text::owned("Width must be positive"),
            TableError::InvalidAlignment => crate::text::owned("Invalid alignment value"),
            TableError::EmptyBorderCharacters => crate::text::owned(
                "Border characters cannot be empty",
            ),
        }
    }
}

/// The result of a table operation.
pub type TableResult<T> = Result<T, TableError>;

} // verus!
