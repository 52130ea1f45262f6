use crate::alignment::ColumnConfig;
use crate::builder::{
    built_as, csv_rows, default_configs, default_options, TableBuilder, ThemedTableBuilder,
};
use crate::renderer::RenderOptions;
use crate::table_data::column_count_of;
use crate::text::views;
use crate::types::Row;
use crate::utils::formatting::table_view;
use vstd::prelude::*;

verus! {

/// The rows drawn with the default border and line settings and one default setting per
/// column of the first row.
pub open spec fn default_table(t: Seq<Seq<Seq<char>>>, n: nat, res: Result<String, String>) -> bool {
    exists|cs: Seq<ColumnConfig>|
        default_configs(cs, n) && #[trigger] built_as(t, "default"@, default_options(), cs, None, res)
}

/// A plain table of the rows.
pub fn table(rows: Vec<Row>) -> (res: Result<String, String>)
    ensures
        default_table(table_view(rows@), column_count_of(table_view(rows@)), res),
{
    let b = TableBuilder::from_rows(rows);
    let ghost cs = b.column_configs@;
    let res = b.build();
    assert(built_as(table_view(rows@), "default"@, default_options(), cs, None, res));
    res
}

/// A plain table of the header followed by the rows; one default column setting per column
/// of the first of the rows.
pub fn table_with_header(header: Vec<String>, rows: Vec<Row>) -> (res: Result<String, String>)
    ensures
        default_table(
            seq![views(header@)] + table_view(rows@),
            column_count_of(table_view(rows@)),
            res,
        ),
{
    let ghost t = seq![views(header@)] + table_view(rows@);
    let b = TableBuilder::from_rows(rows).with_header(header).with_top_border().with_bottom_border();
    let ghost cs = b.column_configs@;
    let res = b.build();
    assert(built_as(t, "default"@, default_options(), cs, None, res));
    res
}

/// The rows drawn with the default border and no column settings.
pub fn data_table(rows: Vec<Row>) -> (res: Result<String, String>)
    ensures
        built_as(table_view(rows@), "default"@, default_options(), Seq::empty(), None, res),
{
    let b = ThemedTableBuilder::data_table().add_rows(rows);
    assert(b.data.rows@ =~= rows@);
    assert(b.column_configs@ =~= Seq::<ColumnConfig>::empty());
    b.build()
}

/// The header and the rows drawn with the `honeywell` border, lines between rows and no
/// column settings.
pub fn report_table(header: Vec<String>, rows: Vec<Row>) -> (res: Result<String, String>)
    ensures
        built_as(
            seq![views(header@)] + table_view(rows@),
            "honeywell"@,
            RenderOptions { show_row_separators: true, ..default_options() },
            Seq::empty(),
            None,
            res,
        ),
{
    let b0 = ThemedTableBuilder::report().with_header(header);
    let ghost t0 = table_view(b0.data.rows@);
    let b = b0.add_rows(rows);
    assert(table_view(b.data.rows@) =~= t0 + table_view(rows@));
    assert(seq![views(header@)] + Seq::<Seq<Seq<char>>>::empty() =~= seq![views(header@)]);
    assert(b.column_configs@ =~= Seq::<ColumnConfig>::empty());
    b.build()
}

/// The rows drawn with ASCII borders and no column settings.
pub fn ascii_table(rows: Vec<Row>) -> (res: Result<String, String>)
    ensures
        built_as(table_view(rows@), "ascii"@, default_options(), Seq::empty(), None, res),
{
    let b = ThemedTableBuilder::minimal().add_rows(rows);
    assert(b.data.rows@ =~= rows@);
    assert(b.column_configs@ =~= Seq::<ColumnConfig>::empty());
    b.build()
}

/// A plain table of the rows of a CSV text (see `csv_rows`), or the complaint that it has
/// none.
pub fn csv_table(csv: &str) -> (res: Result<String, String>)
    ensures
        csv_rows(csv@, ","@).len() == 0 ==> (res matches Err(m) && m@ == "No data found in CSV"@),
        csv_rows(csv@, ","@).len() > 0 ==> default_table(
            csv_rows(csv@, ","@),
            column_count_of(csv_rows(csv@, ","@)),
            res,
        ),
{
    let b = match TableBuilder::from_csv(csv, None) {
        Ok(b) => b,
        Err(e) => {
            return Err(e);
        },
    };
    let b = b.with_top_border().with_bottom_border();
    let ghost cs = b.column_configs@;
    let res = b.build();
    assert(built_as(csv_rows(csv@, ","@), "default"@, default_options(), cs, None, res));
    res
}

} // verus!
