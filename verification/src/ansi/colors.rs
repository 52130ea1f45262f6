use vstd::prelude::*;

verus! {

/// Turns every attribute off.
pub const RESET: &'static str = "\x1b[0m";

/// Bold text.
pub const BOLD: &'static str = "\x1b[1m";

/// Italic text.
pub const ITALIC: &'static str = "\x1b[3m";

/// Underlined text.
pub const UNDERLINE: &'static str = "\x1b[4m";

/// Black text.
pub const BLACK: &'static str = "\x1b[30m";

/// Red text.
pub const RED: &'static str = "\x1b[31m";

/// Green text.
pub const GREEN: &'static str = "\x1b[32m";

/// Yellow text.
pub const YELLOW: &'static str = "\x1b[33m";

/// Blue text.
pub const BLUE: &'static str = "\x1b[34m";

/// Magenta text.
pub const MAGENTA: &'static str = "\x1b[35m";

/// Cyan text.
pub const CYAN: &'static str = "\x1b[36m";

/// White text.
pub const WHITE: &'static str = "\x1b[37m";

/// Bright black text.
pub const BRIGHT_BLACK: &'static str = "\x1b[90m";

/// Bright red text.
pub const BRIGHT_RED: &'static str = "\x1b[91m";

/// Bright green text.
pub const BRIGHT_GREEN: &'static str = "\x1b[92m";

/// Bright yellow text.
pub const BRIGHT_YELLOW: &'static str = "\x1b[93m";

/// Bright blue text.
pub const BRIGHT_BLUE: &'static str = "\x1b[94m";

/// Bright magenta text.
pub const BRIGHT_MAGENTA: &'static str = "\x1b[95m";

/// Bright cyan text.
pub const BRIGHT_CYAN: &'static str = "\x1b[96m";

/// Bright white text.
pub const BRIGHT_WHITE: &'static str = "\x1b[97m";

} // verus!
