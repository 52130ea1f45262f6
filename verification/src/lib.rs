pub mod alignment;
pub mod ansi;
pub mod ansi_multiline;
pub mod border;
pub mod builder;
pub mod column_arrays;
pub mod debug;
pub mod demo;
pub mod emoji;
pub mod features;
pub mod headers;
pub mod multiline;
pub mod newline;
pub mod html;
pub mod html_laws;
pub mod padding;
pub mod performance;
pub mod pipeline;
pub mod renderer;
pub mod single_line;
pub mod spanned_renderer;
pub mod spanning;
pub mod streaming;
pub mod table_data;
pub mod text;
pub mod truncation;
pub mod types;
pub mod unicode;
pub mod utils;
pub mod validation;
pub mod vertical_alignment;
pub mod vertical_multiline;
pub mod wasm;
pub mod wrapping;

pub use pipeline::renderer::{draw_table, try_draw_table};
pub use pipeline::validator::{validate_config, validate_table_data_with_config};
pub use types::{
    Alignment, BorderConfig, BorderUserConfig, CellConfig, CellCoordinates, CellUserConfig,
    ColumnConfig, ColumnUserConfig, RangeConfig, RangeCoordinate, Row, SpanningCellConfig,
    StreamConfig, StreamUserConfig, TableConfig, TableError, TableResult, TableUserConfig,
    VerticalAlignment,
};
pub use utils::formatting::{calculate_maximum_column_widths, stringify_table_data};
pub use utils::wrapping::{calculate_cell_height, wrap_text};

use crate::pipeline::renderer::{draw_ok, draw_table_spec};
use crate::pipeline::validator::{
    column_sums_fit, config_msg, config_result, config_sums_fit, span_places_msg, spans_fit,
};
use crate::types::borders::{border_view, named_style};
use crate::types::config::{default_column, is_merged_table, merged_column};
use crate::utils::formatting::{table_ok, table_view, validate_table_spec};
use vstd::prelude::*;

verus! {

/// The column default that a user configuration gives: its own merged over the default, or
/// the default.
pub open spec fn user_column_default(u: TableUserConfig) -> ColumnConfig {
    match u.column_default {
        Some(c) => merged_column(c, default_column()),
        None => default_column(),
    }
}

/// The sums that validating the configuration built from `u` computes fit in `usize`.
pub open spec fn user_sums_fit(u: TableUserConfig) -> bool {
    &&& column_sums_fit(user_column_default(u))
    &&& (u.columns matches Some(cols) ==> forall|k: int|
        0 <= k < cols@.len() ==> column_sums_fit(
            merged_column(#[trigger] cols@[k], user_column_default(u)),
        ))
    &&& (u.spanning_cells matches Some(s) ==> spans_fit(s@))
}

/// The configuration a table of `cols` columns is drawn with: the user's merged over the
/// default settings, or the default settings with `cols` default columns.
pub open spec fn config_for(user: Option<TableUserConfig>, cols: nat, c: TableConfig) -> bool {
    match user {
        Some(u) => is_merged_table(
            c,
            u,
            named_style("honeywell"@).unwrap(),
            Seq::empty(),
            default_column(),
            false,
            Seq::empty(),
        ),
        None => {
            &&& border_view(c.border) == named_style("honeywell"@).unwrap()
            &&& c.columns@ == Seq::new(cols, |i: int| default_column())
            &&& c.column_default == default_column()
            &&& !c.single_line
            &&& c.spanning_cells@ == Seq::<SpanningCellConfig>::empty()
            &&& c.header is None
        },
    }
}

/// The message given when a justified line's words do not fit its column.
pub open spec fn justify_overflow_msg() -> Seq<char> {
    "Justified text does not fit its column"@
}

/// What `table` gives for the non-empty, accepted rows `t` drawn with the configuration `c`:
/// the first complaint about the configuration, else about the rows, else about a spanning
/// cell's place; else the drawn table, or a complaint when a justified line cannot be spread.
pub open spec fn table_result(res: Result<String, TableError>, t: Seq<Seq<Seq<char>>>, c: TableConfig) -> bool {
    match config_msg(c) {
        Some(m) => config_result(
            match res {
                Ok(_) => Ok(()),
                Err(e) => Err(e),
            },
            Some(m),
        ),
        None => match validate_table_spec(t) {
            Err(e) => res == Err::<String, TableError>(e),
            Ok(_) => match span_places_msg(c.spanning_cells@, 0, t[0].len(), t.len()) {
                Some(m) => res matches Err(TableError::InvalidConfig(s)) && s@ == m,
                None => if draw_ok(t, c) {
                    res matches Ok(s) && s@ == draw_table_spec(t, c)
                } else {
                    res matches Err(TableError::InvalidConfig(s)) && s@ == justify_overflow_msg()
                },
            },
        },
    }
}

/// What `table` gives for the rows `t` and the given settings: nothing for no rows; a
/// complaint about control characters; else the outcome for the configuration built from
/// the settings (see `config_for` and `table_result`).
pub open spec fn table_outcome(res: Result<String, TableError>, t: Seq<Seq<Seq<char>>>, user: Option<TableUserConfig>) -> bool {
    &&& t.len() == 0 ==> (res matches Ok(s) && s@.len() == 0)
    &&& t.len() > 0 && !table_ok(t) ==> res == Err::<String, TableError>(TableError::ControlCharacters)
    &&& t.len() > 0 && table_ok(t) ==> exists|c: TableConfig|
        config_for(user, t[0].len(), c) && #[trigger] table_result(res, t, c)
}

/// Draws `data` as a table with the given settings over the defaults (or the defaults with
/// one default column per cell of the first row). Refuses control characters, a bad
/// configuration, rows of different lengths and spanning cells outside the table.
pub fn table(data: &[Row], user_config: Option<&TableUserConfig>) -> (res: TableResult<String>)
    requires
        user_config matches Some(u) ==> user_sums_fit(*u),
    ensures
        table_outcome(
            res,
            table_view(data@),
            match user_config {
                Some(u) => Some(*u),
                None => None,
            },
        ),
{
    if data.len() == 0 {
        return Ok(String::new());
    }
    let string_data = match stringify_table_data(data) {
        Ok(d) => d,
        Err(e) => {
            return Err(e);
        },
    };
    let ghost t = table_view(data@);
    assert(table_view(string_data@) == t);
    let config = match user_config {
        Some(u) => {
            let d = TableConfig::default();
            let c = u.merge_ref(&d);
            proof {
                lemma_user_sums_fit(*u, c);
            }
            c
        },
        None => create_default_config(string_data.as_slice()),
    };
    assert(string_data@[0]@.len() == t[0].len());
    let ghost user = match user_config {
        Some(u) => Some(*u),
        None => None,
    };
    assert(config_for(user, data@[0]@.len(), config));
    assert(config_sums_fit(config));
    match validate_config(&config) {
        Ok(_) => {},
        Err(e) => {
            assert(table_result(Err(e), t, config));
            return Err(e);
        },
    }
    match validate_table_data_with_config(string_data.as_slice(), &config) {
        Ok(_) => {},
        Err(e) => {
            assert(table_result(Err(e), t, config));
            return Err(e);
        },
    }
    proof {
        lemma_valid_rows_fit(t);
    }
    let out = match try_draw_table(string_data.as_slice(), &config) {
        Some(s) => Ok(s),
        None => Err(
            TableError::InvalidConfig(crate::text::owned("Justified text does not fit its column")),
        ),
    };
    assert(table_result(out, t, config));
    out
}

/// Rows that pass validation are all as long as the first.
proof fn lemma_valid_rows_fit(t: Seq<Seq<Seq<char>>>)
    requires
        t.len() > 0,
        validate_table_spec(t) is Ok,
    ensures
        crate::utils::formatting::rows_fit_first(t),
{
    assert forall|i: int| 0 <= i < t.len() implies #[trigger] t[i].len() <= t[0].len() by {
        lemma_validate_from_len(t, 0, t[0].len(), i);
    }
}

proof fn lemma_validate_from_len(t: Seq<Seq<Seq<char>>>, k: int, expected: nat, i: int)
    requires
        0 <= k <= i < t.len(),
        crate::utils::formatting::validate_from(t, k, expected) is Ok,
    ensures
        t[i].len() == expected,
    decreases i - k,
{
    if k < i {
        lemma_validate_from_len(t, k + 1, expected, i);
    }
}

/// A configuration merged from `u` keeps the sums that validation computes within `usize`.
proof fn lemma_user_sums_fit(u: TableUserConfig, c: TableConfig)
    requires
        user_sums_fit(u),
        is_merged_table(
            c,
            u,
            named_style("honeywell"@).unwrap(),
            Seq::empty(),
            default_column(),
            false,
            Seq::empty(),
        ),
    ensures
        config_sums_fit(c),
{
    assert(c.column_default == user_column_default(u));
}

/// The default settings with one default column per cell of the first row.
fn create_default_config(data: &[Row]) -> (res: TableConfig)
    requires
        data@.len() > 0,
    ensures
        config_for(None, data@[0]@.len(), res),
        config_sums_fit(res),
{
    let mut config = TableConfig::default();
    let column_count = data[0].len();
    let mut columns: Vec<ColumnConfig> = Vec::new();
    let mut i: usize = 0;
    while i < column_count
        invariant
            i <= column_count,
            columns@ == Seq::new(i as nat, |k: int| default_column()),
        decreases column_count - i,
    {
        columns.push(ColumnConfig::default());
        i = i + 1;
        assert(columns@ =~= Seq::new(i as nat, |k: int| default_column()));
    }
    config.columns = columns;
    config
}

/// The border pieces of a named style (see `types::borders::get_border_characters`).
pub fn get_border_characters(name: &str) -> (res: TableResult<BorderConfig>)
    ensures
        match named_style(name@) {
            Some(pieces) => res matches Ok(b) && border_view(b) == pieces,
            None => res matches Err(TableError::InvalidConfig(m)) && m@ == "Unknown border style: "@
                + name@,
        },
{
    types::borders::get_border_characters(name)
}

} // verus!
