use crate::text::{concat2, lower_name, str_eq, to_lowercase};
use vstd::prelude::*;

verus! {

/// The characters a plain table's lines are drawn with.
#[derive(Debug, Clone, Copy, PartialEq, Eq, Structural)]
pub struct BorderChars {
    pub top_left: char,
    pub top_right: char,
    pub bottom_left: char,
    pub bottom_right: char,
    pub horizontal: char,
    pub vertical: char,
    pub top_junction: char,
    pub bottom_junction: char,
}

/// Single box-drawing lines.
pub open spec fn honeywell_chars() -> BorderChars {
    BorderChars {
        top_left: '┌',
        top_right: '┐',
        bottom_left: '└',
        bottom_right: '┘',
        horizontal: '─',
        vertical: '│',
        top_junction: '┬',
        bottom_junction: '┴',
    }
}

/// Plain ASCII lines.
pub open spec fn ramac_chars() -> BorderChars {
    BorderChars {
        top_left: '+',
        top_right: '+',
        bottom_left: '+',
        bottom_right: '+',
        horizontal: '-',
        vertical: '|',
        top_junction: '+',
        bottom_junction: '+',
    }
}

/// Double box-drawing lines.
pub open spec fn norc_chars() -> BorderChars {
    BorderChars {
        top_left: '╔',
        top_right: '╗',
        bottom_left: '╚',
        bottom_right: '╝',
        horizontal: '═',
        vertical: '║',
        top_junction: '╦',
        bottom_junction: '╩',
    }
}

/// Spaces everywhere.
pub open spec fn void_chars() -> BorderChars {
    BorderChars {
        top_left: ' ',
        top_right: ' ',
        bottom_left: ' ',
        bottom_right: ' ',
        horizontal: ' ',
        vertical: ' ',
        top_junction: ' ',
        bottom_junction: ' ',
    }
}

impl Default for BorderChars {
    /// The `honeywell` style.
    fn default() -> (res: Self)
        ensures
            res == honeywell_chars(),
    {
        BorderChars {
            top_left: '┌',
            top_right: '┐',
            bottom_left: '└',
            bottom_right: '┘',
            horizontal: '─',
            vertical: '│',
            top_junction: '┬',
            bottom_junction: '┴',
        }
    }
}

impl BorderChars {
    /// The default style.
    pub fn new() -> (res: Self)
        ensures
            res == honeywell_chars(),
    {
        Self::default()
    }

    /// Single box-drawing lines.
    pub fn honeywell() -> (res: Self)
        ensures
            res == honeywell_chars(),
    {
        Self::default()
    }

    /// Plain ASCII lines.
    pub fn ramac() -> (res: Self)
        ensures
            res == ramac_chars(),
    {
        BorderChars {
            top_left: '+',
            top_right: '+',
            bottom_left: '+',
            bottom_right: '+',
            horizontal: '-',
            vertical: '|',
            top_junction: '+',
            bottom_junction: '+',
        }
    }

    /// Double box-drawing lines.
    pub fn norc() -> (res: Self)
        ensures
            res == norc_chars(),
    {
        BorderChars {
            top_left: '╔',
            top_right: '╗',
            bottom_left: '╚',
            bottom_right: '╝',
            horizontal: '═',
            vertical: '║',
            top_junction: '╦',
            bottom_junction: '╩',
        }
    }

    /// Spaces everywhere.
    pub fn void() -> (res: Self)
        ensures
            res == void_chars(),
    {
        BorderChars {
            top_left: ' ',
            top_right: ' ',
            bottom_left: ' ',
            bottom_right: ' ',
            horizontal: ' ',
            vertical: ' ',
            top_junction: ' ',
            bottom_junction: ' ',
        }
    }

    /// Plain ASCII lines (the `ramac` style).
    pub fn ascii() -> (res: Self)
        ensures
            res == ramac_chars(),
    {
        Self::ramac()
    }
}

/// The style named by a lower-case name, if it is one of `honeywell`, `ramac`, `norc`,
/// `void` and `ascii`.
pub open spec fn border_style_named(lower: Seq<char>) -> Option<BorderChars> {
    if lower == "honeywell"@ {
        Some(honeywell_chars())
    } else if lower == "ramac"@ || lower == "ascii"@ {
        Some(ramac_chars())
    } else if lower == "norc"@ {
        Some(norc_chars())
    } else if lower == "void"@ {
        Some(void_chars())
    } else {
        None
    }
}

/// The style with the given name, in any letter case, or a message naming the unknown
/// style.
pub fn get_border_style(name: &str) -> (res: Result<BorderChars, String>)
    ensures
        match border_style_named(lower_name(name@)) {
            Some(b) => res == Ok::<BorderChars, String>(b),
            None => res matches Err(m) && m@ == "Unknown border style: "@ + name@,
        },
{
    let lower = to_lowercase(name);
    let l = lower.as_str();
    proof {
        reveal_strlit("honeywell");
        reveal_strlit("ramac");
        reveal_strlit("norc");
        reveal_strlit("void");
        reveal_strlit("ascii");
        assert("honeywell"@.len() == 9);
        assert("ramac"@.len() == 5);
        assert("norc"@.len() == 4);
        assert("void"@.len() == 4);
        assert("ascii"@.len() == 5);
        assert("ramac"@[0] != "ascii"@[0]);
        assert("norc"@[0] != "void"@[0]);
    }
    if str_eq(l, "honeywell") {
        Ok(BorderChars::honeywell())
    } else if str_eq(l, "ramac") {
        Ok(BorderChars::ramac())
    } else if str_eq(l, "norc") {
        Ok(BorderChars::norc())
    } else if str_eq(l, "void") {
        Ok(BorderChars::void())
    } else if str_eq(l, "ascii") {
        Ok(BorderChars::ascii())
    } else {
        Err(concat2("Unknown border style: ", name))
    }
}

} // verus!
