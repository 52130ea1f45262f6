use crate::types::TableError;
use vstd::prelude::*;

verus! {

/// Horizontal placement of text within a cell.
#[derive(Debug, Clone, Copy, PartialEq, Eq, Structural)]
pub enum Alignment {
    Left,
    Right,
    Center,
    Justify,
}

impl Default for Alignment {
    fn default() -> (res: Self)
        ensures
            res == Alignment::Left,
    {
        Alignment::Left
    }
}

/// The lower-case name of an alignment.
pub open spec fn alignment_name(a: Alignment) -> Seq<char> {
    match a {
        Alignment::Left => "left"@,
        Alignment::Right => "right"@,
        Alignment::Center => "center"@,
        Alignment::Justify => "justify"@,
    }
}

/// The alignment named by `s`, read without regard to case.
pub open spec fn alignment_from_name(lower: Seq<char>) -> Option<Alignment> {
    if lower == "left"@ {
        Some(Alignment::Left)
    } else if lower == "right"@ {
        Some(Alignment::Right)
    } else if lower == "center"@ {
        Some(Alignment::Center)
    } else if lower == "justify"@ {
        Some(Alignment::Justify)
    } else {
        None
    }
}

impl Alignment {
    /// The lower-case name of the alignment.
    pub fn to_string(&self) -> (res: String)
        ensures
            res@ == alignment_name(*self),
    {
        match self {
            Alignment::Left => crate::text::owned("left"),
            Alignment::Right => crate::text::owned("right"),
            Alignment::Center => crate::text::owned("center"),
            Alignment::Justify => crate::text::owned("justify"),
        }
    }

    /// Reads an alignment from its name, in any case.
    pub fn from_str(s: &str) -> (res: Result<Alignment, TableError>)
        ensures
            match alignment_from_name(crate::text::lower_name(s@)) {
                Some(a) => res == Ok::<Alignment, TableError>(a),
                None => res == Err::<Alignment, TableError>(TableError::InvalidAlignment),
            },
    {
        let lower = crate::text::to_lowercase(s);
        let l = lower.as_str();
        if crate::text::str_eq(l, "left") {
            Ok(Alignment::Left)
        } else if crate::text::str_eq(l, "right") {
            Ok(Alignment::Right)
        } else if crate::text::str_eq(l, "center") {
            Ok(Alignment::Center)
        } else if crate::text::str_eq(l, "justify") {
            Ok(Alignment::Justify)
        } else {
            Err(TableError::InvalidAlignment)
        }
    }
}

/// Vertical placement of text within a cell.
#[derive(Debug, Clone, Copy, PartialEq, Eq, Structural)]
pub enum VerticalAlignment {
    Top,
    Middle,
    Bottom,
}

impl Default for VerticalAlignment {
    fn default() -> (res: Self)
        ensures
            res == VerticalAlignment::Top,
    {
        VerticalAlignment::Top
    }
}

/// The lower-case name of a vertical alignment.
pub open spec fn vertical_alignment_name(a: VerticalAlignment) -> Seq<char> {
    match a {
        VerticalAlignment::Top => "top"@,
        VerticalAlignment::Middle => "middle"@,
        VerticalAlignment::Bottom => "bottom"@,
    }
}

/// The vertical alignment named by the lower-case text `lower`.
pub open spec fn vertical_alignment_from_name(lower: Seq<char>) -> Option<VerticalAlignment> {
    if lower == "top"@ {
        Some(VerticalAlignment::Top)
    } else if lower == "middle"@ {
        Some(VerticalAlignment::Middle)
    } else if lower == "bottom"@ {
        Some(VerticalAlignment::Bottom)
    } else {
        None
    }
}

impl VerticalAlignment {
    /// The lower-case name of the vertical alignment.
    pub fn to_string(&self) -> (res: String)
        ensures
            res@ == vertical_alignment_name(*self),
    {
        match self {
            VerticalAlignment::Top => crate::text::owned("top"),
            VerticalAlignment::Middle => crate::text::owned("middle"),
            VerticalAlignment::Bottom => crate::text::owned("bottom"),
        }
    }

    /// Reads a vertical alignment from its name, in any case.
    pub fn from_str(s: &str) -> (res: Result<VerticalAlignment, TableError>)
        ensures
            match vertical_alignment_from_name(crate::text::lower_name(s@)) {
                Some(a) => res == Ok::<VerticalAlignment, TableError>(a),
                None => res == Err::<VerticalAlignment, TableError>(TableError::InvalidAlignment),
            },
    {
        let lower = crate::text::to_lowercase(s);
        let l = lower.as_str();
        if crate::text::str_eq(l, "top") {
            Ok(VerticalAlignment::Top)
        } else if crate::text::str_eq(l, "middle") {
            Ok(VerticalAlignment::Middle)
        } else if crate::text::str_eq(l, "bottom") {
            Ok(VerticalAlignment::Bottom)
        } else {
            Err(TableError::InvalidAlignment)
        }
    }
}

} // verus!
