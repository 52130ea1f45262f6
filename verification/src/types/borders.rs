use crate::text::{concat2, owned, str_eq};
use crate::types::TableError;
use vstd::prelude::*;

verus! {

/// The sixteen pieces a table's lines are drawn from.
#[derive(Debug, Clone, PartialEq, Eq)]
pub struct BorderConfig {
    pub top_body: String,
    pub top_join: String,
    pub top_left: String,
    pub top_right: String,
    pub bottom_body: String,
    pub bottom_join: String,
    pub bottom_left: String,
    pub bottom_right: String,
    pub body_left: String,
    pub body_right: String,
    pub body_join: String,
    pub header_join: String,
    pub join_body: String,
    pub join_left: String,
    pub join_right: String,
    pub join_join: String,
}

/// The border pieces in field order.
pub open spec fn border_view(b: BorderConfig) -> Seq<Seq<char>> {
    seq![b.top_body@, b.top_join@, b.top_left@, b.top_right@, b.bottom_body@, b.bottom_join@, b.bottom_left@, b.bottom_right@, b.body_left@, b.body_right@, b.body_join@, b.header_join@, b.join_body@, b.join_left@, b.join_right@, b.join_join@]
}

impl BorderConfig {
    /// A copy of the border, piece for piece.
    pub fn duplicate(&self) -> (res: BorderConfig)
        ensures
            res == *self,
    {
        BorderConfig {
            top_body: self.top_body.clone(),
            top_join: self.top_join.clone(),
            top_left: self.top_left.clone(),
            top_right: self.top_right.clone(),
            bottom_body: self.bottom_body.clone(),
            bottom_join: self.bottom_join.clone(),
            bottom_left: self.bottom_left.clone(),
            bottom_right: self.bottom_right.clone(),
            body_left: self.body_left.clone(),
            body_right: self.body_right.clone(),
            body_join: self.body_join.clone(),
            header_join: self.header_join.clone(),
            join_body: self.join_body.clone(),
            join_left: self.join_left.clone(),
            join_right: self.join_right.clone(),
            join_join: self.join_join.clone(),
        }
    }
}

impl Default for BorderConfig {
    /// The `honeywell` style.
    fn default() -> (res: Self)
        ensures
            border_view(res) == named_style("honeywell"@).unwrap(),
    {
        style_honeywell()
    }
}

/// Border pieces that each may be given or left to a default.
#[derive(Debug, Clone, PartialEq, Eq)]
pub struct BorderUserConfig {
    pub top_body: Option<String>,
    pub top_join: Option<String>,
    pub top_left: Option<String>,
    pub top_right: Option<String>,
    pub bottom_body: Option<String>,
    pub bottom_join: Option<String>,
    pub bottom_left: Option<String>,
    pub bottom_right: Option<String>,
    pub body_left: Option<String>,
    pub body_right: Option<String>,
    pub body_join: Option<String>,
    pub header_join: Option<String>,
    pub join_body: Option<String>,
    pub join_left: Option<String>,
    pub join_right: Option<String>,
    pub join_join: Option<String>,
}

/// A given piece, or the default one.
pub open spec fn pick(given: Option<String>, default: String) -> Seq<char> {
    match given {
        Some(s) => s@,
        None => default@,
    }
}

/// The given pieces over the defaults, in field order.
pub open spec fn merged_border_view(u: BorderUserConfig, d: BorderConfig) -> Seq<Seq<char>> {
    seq![pick(u.top_body, d.top_body), pick(u.top_join, d.top_join), pick(u.top_left, d.top_left), pick(u.top_right, d.top_right), pick(u.bottom_body, d.bottom_body), pick(u.bottom_join, d.bottom_join), pick(u.bottom_left, d.bottom_left), pick(u.bottom_right, d.bottom_right), pick(u.body_left, d.body_left), pick(u.body_right, d.body_right), pick(u.body_join, d.body_join), pick(u.header_join, d.header_join), pick(u.join_body, d.join_body), pick(u.join_left, d.join_left), pick(u.join_right, d.join_right), pick(u.join_join, d.join_join)]
}

/// A given piece, or a copy of the default one.
fn pick_piece(given: Option<String>, default: &String) -> (res: String)
    ensures
        res@ == pick(given, *default),
{
    match given {
        Some(s) => s,
        None => default.clone(),
    }
}

impl BorderUserConfig {
    /// Each piece that is given, and the default's piece where it is not.
    pub fn merge_with_default(self, default: &BorderConfig) -> (res: BorderConfig)
        ensures
            border_view(res) == merged_border_view(self, *default),
    {
        let res = BorderConfig {
            top_body: pick_piece(self.top_body, &default.top_body),
            top_join: pick_piece(self.top_join, &default.top_join),
            top_left: pick_piece(self.top_left, &default.top_left),
            top_right: pick_piece(self.top_right, &default.top_right),
            bottom_body: pick_piece(self.bottom_body, &default.bottom_body),
            bottom_join: pick_piece(self.bottom_join, &default.bottom_join),
            bottom_left: pick_piece(self.bottom_left, &default.bottom_left),
            bottom_right: pick_piece(self.bottom_right, &default.bottom_right),
            body_left: pick_piece(self.body_left, &default.body_left),
            body_right: pick_piece(self.body_right, &default.body_right),
            body_join: pick_piece(self.body_join, &default.body_join),
            header_join: pick_piece(self.header_join, &default.header_join),
            join_body: pick_piece(self.join_body, &default.join_body),
            join_left: pick_piece(self.join_left, &default.join_left),
            join_right: pick_piece(self.join_right, &default.join_right),
            join_join: pick_piece(self.join_join, &default.join_join),
        };
        assert(border_view(res) =~= merged_border_view(self, *default));
        res
    }
}

/// The pieces of each named style, in field order; `None` for an unknown name.
pub open spec fn named_style(name: Seq<char>) -> Option<Seq<Seq<char>>> {

    if name == "honeywell"@ {
        Some(seq!["─"@, "┬"@, "┌"@, "┐"@, "─"@, "┴"@, "└"@, "┘"@, "│"@, "│"@, "│"@, "─"@, "─"@, "├"@, "┤"@, "┼"@])

    } else if name == "norc"@ {
        Some(seq!["─"@, "┬"@, "┌"@, "┐"@, "─"@, "┴"@, "└"@, "┘"@, "│"@, "│"@, "│"@, "─"@, "─"@, "├"@, "┤"@, "┼"@])

    } else if name == "ramac"@ {
        Some(seq!["-"@, "+"@, "+"@, "+"@, "-"@, "+"@, "+"@, "+"@, "|"@, "|"@, "|"@, "-"@, "-"@, "+"@, "+"@, "+"@])

    } else if name == "void"@ {
        Some(seq![""@, ""@, ""@, ""@, ""@, ""@, ""@, ""@, ""@, ""@, " "@, ""@, ""@, ""@, ""@, ""@])

    } else {
        None
    }
}

/// The four style names differ from each other.
proof fn lemma_style_names_distinct()
    ensures
        "honeywell"@ != "norc"@,
        "honeywell"@ != "ramac"@,
        "honeywell"@ != "void"@,
        "norc"@ != "ramac"@,
        "norc"@ != "void"@,
        "ramac"@ != "void"@,
{
    reveal_strlit("honeywell");
    reveal_strlit("norc");
    reveal_strlit("ramac");
    reveal_strlit("void");
    assert("honeywell"@.len() == 9);
    assert("norc"@.len() == 4);
    assert("ramac"@.len() == 5);
    assert("void"@.len() == 4);
    assert("norc"@[0] != "void"@[0]);
}

/// The `honeywell` pieces.
fn style_honeywell() -> (res: BorderConfig)
    ensures
        border_view(res) == named_style("honeywell"@).unwrap(),
{
    let res = BorderConfig {
        top_body: owned("─"),
        top_join: owned("┬"),
        top_left: owned("┌"),
        top_right: owned("┐"),
        bottom_body: owned("─"),
        bottom_join: owned("┴"),
        bottom_left: owned("└"),
        bottom_right: owned("┘"),
        body_left: owned("│"),
        body_right: owned("│"),
        body_join: owned("│"),
        header_join: owned("─"),
        join_body: owned("─"),
        join_left: owned("├"),
        join_right: owned("┤"),
        join_join: owned("┼"),
    };
    assert(border_view(res) =~= named_style("honeywell"@).unwrap());
    res
}

/// The `norc` pieces.
fn style_norc() -> (res: BorderConfig)
    ensures
        border_view(res) == named_style("norc"@).unwrap(),
{
    proof {
        lemma_style_names_distinct();
    }
    let res = BorderConfig {
        top_body: owned("─"),
        top_join: owned("┬"),
        top_left: owned("┌"),
        top_right: owned("┐"),
        bottom_body: owned("─"),
        bottom_join: owned("┴"),
        bottom_left: owned("└"),
        bottom_right: owned("┘"),
        body_left: owned("│"),
        body_right: owned("│"),
        body_join: owned("│"),
        header_join: owned("─"),
        join_body: owned("─"),
        join_left: owned("├"),
        join_right: owned("┤"),
        join_join: owned("┼"),
    };
    assert(border_view(res) =~= named_style("norc"@).unwrap());
    res
}

/// The `ramac` pieces.
fn style_ramac() -> (res: BorderConfig)
    ensures
        border_view(res) == named_style("ramac"@).unwrap(),
{
    proof {
        lemma_style_names_distinct();
    }
    let res = BorderConfig {
        top_body: owned("-"),
        top_join: owned("+"),
        top_left: owned("+"),
        top_right: owned("+"),
        bottom_body: owned("-"),
        bottom_join: owned("+"),
        bottom_left: owned("+"),
        bottom_right: owned("+"),
        body_left: owned("|"),
        body_right: owned("|"),
        body_join: owned("|"),
        header_join: owned("-"),
        join_body: owned("-"),
        join_left: owned("+"),
        join_right: owned("+"),
        join_join: owned("+"),
    };
    assert(border_view(res) =~= named_style("ramac"@).unwrap());
    res
}

/// The `void` pieces.
fn style_void() -> (res: BorderConfig)
    ensures
        border_view(res) == named_style("void"@).unwrap(),
{
    proof {
        lemma_style_names_distinct();
    }
    let res = BorderConfig {
        top_body: owned(""),
        top_join: owned(""),
        top_left: owned(""),
        top_right: owned(""),
        bottom_body: owned(""),
        bottom_join: owned(""),
        bottom_left: owned(""),
        bottom_right: owned(""),
        body_left: owned(""),
        body_right: owned(""),
        body_join: owned(" "),
        header_join: owned(""),
        join_body: owned(""),
        join_left: owned(""),
        join_right: owned(""),
        join_join: owned(""),
    };
    assert(border_view(res) =~= named_style("void"@).unwrap());
    res
}

/// The pieces of a named style: `honeywell`, `norc`, `ramac` or `void`.
pub fn get_border_characters(name: &str) -> (res: Result<BorderConfig, TableError>)
    ensures
        match named_style(name@) {
            Some(pieces) => res matches Ok(b) && border_view(b) == pieces,
            None => res matches Err(TableError::InvalidConfig(m)) && m@ == "Unknown border style: "@
                + name@,
        },
{
    proof {
        lemma_style_names_distinct();
    }
    if str_eq(name, "honeywell") {
        Ok(style_honeywell())
    } else if str_eq(name, "norc") {
        Ok(style_norc())
    } else if str_eq(name, "ramac") {
        Ok(style_ramac())
    } else if str_eq(name, "void") {
        Ok(style_void())
    } else {
        Err(TableError::InvalidConfig(concat2("Unknown border style: ", name)))
    }
}

} // verus!
