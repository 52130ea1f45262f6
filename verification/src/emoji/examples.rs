use crate::table_data::TableData;
use crate::text::{owned, views};
use crate::utils::formatting::table_view;
use vstd::prelude::*;

verus! {

/// A small table of emoji with names and categories: a header row and four emoji rows
/// (a face, a flag, a joined sequence and a skin tone).
pub fn create_test_table() -> (res: TableData)
    ensures
        table_view(res.rows@) == seq![
            seq!["Emoji"@, "Name"@, "Category"@],
            seq!["😀"@, "Grinning Face"@, "Smileys"@],
            seq!["🇺🇸"@, "United States Flag"@, "Flags"@],
            seq!["👨‍💻"@, "Man Technologist"@, "People"@],
            seq!["👍🏽"@, "Thumbs Up (Medium)"@, "Gestures"@],
        ],
{
    let rows = vec![
        vec![owned("Emoji"), owned("Name"), owned("Category")],
        vec![owned("😀"), owned("Grinning Face"), owned("Smileys")],
        vec![owned("🇺🇸"), owned("United States Flag"), owned("Flags")],
        vec![owned("👨‍💻"), owned("Man Technologist"), owned("People")],
        vec![owned("👍🏽"), owned("Thumbs Up (Medium)"), owned("Gestures")],
    ];
    let res = TableData::new(rows);
    assert(table_view(res.rows@) =~= seq![
        seq!["Emoji"@, "Name"@, "Category"@],
        seq!["😀"@, "Grinning Face"@, "Smileys"@],
        seq!["🇺🇸"@, "United States Flag"@, "Flags"@],
        seq!["👨‍💻"@, "Man Technologist"@, "People"@],
        seq!["👍🏽"@, "Thumbs Up (Medium)"@, "Gestures"@],
    ]) by {
        assert(views(res.rows@[0]@) =~= seq!["Emoji"@, "Name"@, "Category"@]);
        assert(views(res.rows@[1]@) =~= seq!["😀"@, "Grinning Face"@, "Smileys"@]);
        assert(views(res.rows@[2]@) =~= seq!["🇺🇸"@, "United States Flag"@, "Flags"@]);
        assert(views(res.rows@[3]@) =~= seq!["👨‍💻"@, "Man Technologist"@, "People"@]);
        assert(views(res.rows@[4]@) =~= seq!["👍🏽"@, "Thumbs Up (Medium)"@, "Gestures"@]);
    }
    res
}

} // verus!
