pub mod quick;

use crate::alignment::{is_default_column, Alignment, ColumnConfig};
use crate::border::{border_style_named, get_border_style, honeywell_chars, BorderChars};
use crate::padding::Padding;
use crate::performance::{fast_widths, renderer_ok, FastTableRenderer, PerformanceConfig};
use crate::renderer::RenderOptions;
use crate::table_data::{
    column_count_of, first_bad_row, plain_cells_ok, plain_table_gen, plain_table_spec,
    render_table_with_column_config, TableData,
};
use crate::text::{
    concat2, concat3, decimal, lines, lines_of, lower_name, owned, split_pieces, split_str,
    str_eq, trim, trim_matches, trim_matches_spec, trim_spec, usize_to_string, views,
};
use crate::truncation::TruncationConfig;
use crate::types::Row;
use crate::utils::formatting::table_view;
use crate::validation::{
    config_warning_findings, memory_estimate, report_text, scored, findings, validate_error_findings,
    validate_info_findings, validate_warning_findings, TableValidator, ValidationConfig,
    ValidationResult,
};
use crate::wrapping::{WrapConfig, WrapMode};
use vstd::prelude::*;

verus! {

/// Builds a plain table step by step.
pub struct TableBuilder {
    pub data: TableData,
    pub column_configs: Vec<ColumnConfig>,
    pub border_style: String,
    pub render_options: RenderOptions,
    pub validation_config: Option<ValidationConfig>,
    pub performance_config: Option<PerformanceConfig>,
}

/// `n` default columns.
fn default_columns(n: usize) -> (res: Vec<ColumnConfig>)
    ensures
        res@.len() == n,
        forall|k: int| 0 <= k < n ==> is_default_column(#[trigger] res@[k]),
{
    let mut v: Vec<ColumnConfig> = Vec::new();
    let mut i: usize = 0;
    while i < n
        invariant
            i <= n,
            v@.len() == i,
            forall|k: int| 0 <= k < i ==> is_default_column(#[trigger] v@[k]),
        decreases n - i,
    {
        v.push(ColumnConfig::default());
        i = i + 1;
    }
    v
}

/// A copy of a list of column settings.
fn copy_configs(v: &Vec<ColumnConfig>) -> (res: Vec<ColumnConfig>)
    ensures
        res@ == v@,
{
    let mut out: Vec<ColumnConfig> = Vec::new();
    let mut i: usize = 0;
    while i < v.len()
        invariant
            i <= v.len(),
            out@ == v@.take(i as int),
        decreases v.len() - i,
    {
        out.push(v[i].duplicate());
        i = i + 1;
        assert(out@ =~= v@.take(i as int));
    }
    assert(v@.take(i as int) =~= v@);
    out
}

/// A copy of a table's rows.
fn copy_data(d: &TableData) -> (res: TableData)
    ensures
        table_view(res.rows@) == table_view(d.rows@),
{
    TableData::new(crate::utils::formatting::copy_rows(d.rows.as_slice(), 0, d.rows.len()))
}

/// The border a builder's style names: the default border for `default`, else the named
/// style in any letter case.
pub open spec fn builder_border(style: Seq<char>) -> Option<BorderChars> {
    if style == "default"@ {
        Some(honeywell_chars())
    } else {
        border_style_named(lower_name(style))
    }
}

/// The border a builder's style names (see `builder_border`), or a message naming the
/// unknown style.
fn resolve_border(style: &str) -> (res: Result<BorderChars, String>)
    ensures
        match builder_border(style@) {
            Some(b) => res == Ok::<BorderChars, String>(b),
            None => res matches Err(m) && m@ == "Unknown border style: "@ + style@,
        },
{
    if str_eq(style, "default") {
        return Ok(BorderChars::default());
    }
    get_border_style(style)
}

/// Whether `b` holds the data and settings of `a`, with the data of `rows`.
pub open spec fn same_settings(a: TableBuilder, b: TableBuilder) -> bool {
    &&& a.column_configs@ == b.column_configs@
    &&& a.border_style@ == b.border_style@
    &&& a.render_options == b.render_options
    &&& a.validation_config == b.validation_config
    &&& a.performance_config == b.performance_config
}

/// What drawing the rows `t` with the border style `style`, the line settings `o`, the
/// column settings `configs` and the performance settings `perf` gives: the border's
/// complaint, or the table drawn with the fast renderer (when performance settings are
/// given) or plainly.
pub open spec fn built_as(
    t: Seq<Seq<Seq<char>>>,
    style: Seq<char>,
    o: RenderOptions,
    configs: Seq<ColumnConfig>,
    perf: Option<PerformanceConfig>,
    res: Result<String, String>,
) -> bool {
    match builder_border(style) {
        None => res matches Err(m) && m@ == "Unknown border style: "@ + style,
        Some(border) => {
            &&& (first_bad_row(t, 0, column_count_of(t)) is Some <==> res is Err)
            &&& (res matches Ok(s) ==> s@ == match perf {
                Some(p) => plain_table_gen(t, border, o, configs, fast_widths(t, p.optimize_memory), !p.enable_caching),
                None => plain_table_spec(t, border, o, configs),
            })
        },
    }
}

/// What `build_unchecked` gives for a builder (see `built_as`).
pub open spec fn build_unchecked_ok(b: TableBuilder, res: Result<String, String>) -> bool {
    built_as(table_view(b.data.rows@), b.border_style@, b.render_options, b.column_configs@, b.performance_config, res)
}

/// The default line settings: top and bottom lines, no lines between rows.
pub open spec fn default_options() -> RenderOptions {
    RenderOptions { show_top_border: true, show_bottom_border: true, show_row_separators: false }
}

/// Whether `cs` holds `n` default column settings.
pub open spec fn default_configs(cs: Seq<ColumnConfig>, n: nat) -> bool {
    cs.len() == n && forall|k: int| 0 <= k < n ==> is_default_column(#[trigger] cs[k])
}

impl TableBuilder {
    /// No rows, no column settings, the default border and lines, no validation, no
    /// performance settings.
    pub fn new() -> (res: Self)
        ensures
            res.data.rows@.len() == 0,
            res.column_configs@.len() == 0,
            res.border_style@ == "default"@,
            res.render_options == default_options(),
            res.validation_config is None,
            res.performance_config is None,
    {
        TableBuilder {
            data: TableData::new(Vec::new()),
            column_configs: Vec::new(),
            border_style: owned("default"),
            render_options: RenderOptions::default(),
            validation_config: None,
            performance_config: None,
        }
    }

    /// The given rows, one default column setting per column of the first row, otherwise as
    /// `new`.
    pub fn from_data(data: TableData) -> (res: Self)
        ensures
            res.data == data,
            res.column_configs@.len() == column_count_of(table_view(data.rows@)),
            forall|k: int| 0 <= k < res.column_configs@.len() ==> is_default_column(#[trigger] res.column_configs@[k]),
            res.border_style@ == "default"@,
            res.render_options == default_options(),
            res.validation_config is None,
            res.performance_config is None,
    {
        let n = data.column_count();
        TableBuilder {
            column_configs: default_columns(n),
            data,
            border_style: owned("default"),
            render_options: RenderOptions::default(),
            validation_config: None,
            performance_config: None,
        }
    }

    /// `from_data` of the given rows.
    pub fn from_rows(rows: Vec<Row>) -> (res: Self)
        ensures
            res.data.rows == rows,
            default_configs(res.column_configs@, column_count_of(table_view(rows@))),
            res.border_style@ == "default"@,
            res.render_options == default_options(),
            res.validation_config is None,
            res.performance_config is None,
    {
        Self::from_data(TableData::new(rows))
    }

    /// The builder of the rows of a CSV text: each non-blank line split at the separator
    /// (`,` by default), each field without surrounding quotes and whitespace; an error when
    /// no line is left.
    pub fn from_csv(csv: &str, separator: Option<&str>) -> (res: Result<Self, String>)
        ensures
            csv_rows(csv@, match separator { Some(s) => s@, None => ","@ }).len() == 0 ==> (res matches Err(m) && m@ == "No data found in CSV"@),
            csv_rows(csv@, match separator { Some(s) => s@, None => ","@ }).len() > 0 ==> (res matches Ok(b)
                && table_view(b.data.rows@) == csv_rows(csv@, match separator { Some(s) => s@, None => ","@ })
                && default_configs(b.column_configs@, column_count_of(table_view(b.data.rows@)))
                && b.border_style@ == "default"@ && b.render_options == default_options()
                && b.validation_config is None && b.performance_config is None),
    {
        let sep: &str = match separator {
            Some(s) => s,
            None => ",",
        };
        let rows = csv_parse(csv, sep);
        if rows.len() == 0 {
            return Err(owned("No data found in CSV"));
        }
        Ok(Self::from_rows(rows))
    }

    /// One more row.
    pub fn add_row(self, row: Vec<String>) -> (res: Self)
        ensures
            res.data.rows@ == self.data.rows@.push(row),
            same_settings(self, res),
    {
        let mut s = self;
        s.data.rows.push(row);
        s
    }

    /// More rows.
    pub fn add_rows(self, rows: Vec<Row>) -> (res: Self)
        ensures
            res.data.rows@ == self.data.rows@ + rows@,
            same_settings(self, res),
    {
        let mut s = self;
        let mut more = rows;
        s.data.rows.append(&mut more);
        s
    }

    /// The header row placed before the rows, the settings kept.
    pub fn with_header(self, header: Vec<String>) -> (res: Self)
        ensures
            table_view(res.data.rows@) == seq![views(header@)] + table_view(self.data.rows@),
            same_settings(self, res),
    {
        let mut rows: Vec<Row> = Vec::new();
        let ghost hv = views(header@);
        rows.push(header);
        let ghost old_rows = table_view(self.data.rows@);
        let mut s = self;
        let mut rest = crate::utils::formatting::copy_rows(s.data.rows.as_slice(), 0, s.data.rows.len());
        assert(table_view(s.data.rows@).subrange(0, s.data.rows@.len() as int) =~= old_rows);
        let ghost a = table_view(rows@);
        let ghost b = table_view(rest@);
        rows.append(&mut rest);
        assert(table_view(rows@) =~= a + b);
        assert(a =~= seq![hv]);
        s.data = TableData::new(rows);
        s
    }

    /// The same builder with another border style.
    pub fn with_border_style(self, style: &str) -> (res: Self)
        ensures
            res.data == self.data,
            res.column_configs == self.column_configs,
            res.border_style@ == style@,
            res.render_options == self.render_options,
            res.validation_config == self.validation_config,
            res.performance_config == self.performance_config,
    {
        TableBuilder { border_style: owned(style), ..self }
    }

    /// The same builder with other line settings.
    pub fn with_render_options(self, options: RenderOptions) -> (res: Self)
        ensures
            res == (TableBuilder { render_options: options, ..self }),
    {
        TableBuilder { render_options: options, ..self }
    }

    /// The same builder with the top line shown.
    pub fn with_top_border(self) -> (res: Self)
        ensures
            res == (TableBuilder { render_options: RenderOptions { show_top_border: true, ..self.render_options }, ..self }),
    {
        let o = RenderOptions { show_top_border: true, ..self.render_options };
        TableBuilder { render_options: o, ..self }
    }

    /// The same builder with the bottom line shown.
    pub fn with_bottom_border(self) -> (res: Self)
        ensures
            res == (TableBuilder { render_options: RenderOptions { show_bottom_border: true, ..self.render_options }, ..self }),
    {
        let o = RenderOptions { show_bottom_border: true, ..self.render_options };
        TableBuilder { render_options: o, ..self }
    }

    /// The same builder with lines between rows.
    pub fn with_row_separators(self) -> (res: Self)
        ensures
            res == (TableBuilder { render_options: RenderOptions { show_row_separators: true, ..self.render_options }, ..self }),
    {
        let o = RenderOptions { show_row_separators: true, ..self.render_options };
        TableBuilder { render_options: o, ..self }
    }

    /// The settings of one column; default settings are added before it where there are
    /// none.
    pub fn with_column_config(self, column: usize, config: ColumnConfig) -> (res: Self)
        ensures
            res.column_configs@.len() == if column < self.column_configs@.len() { self.column_configs@.len() as int } else { column + 1 },
            res.column_configs@[column as int] == config,
            forall|k: int| 0 <= k < res.column_configs@.len() && k != column ==> if k < self.column_configs@.len() {
                #[trigger] res.column_configs@[k] == self.column_configs@[k]
            } else {
                is_default_column(res.column_configs@[k])
            },
            res.data == self.data,
            res.border_style == self.border_style,
            res.render_options == self.render_options,
            res.validation_config == self.validation_config,
            res.performance_config == self.performance_config,
    {
        let mut s = self;
        while s.column_configs.len() <= column
            invariant
                s.column_configs@.len() >= self.column_configs@.len(),
                s.column_configs@.len() <= if column < self.column_configs@.len() { self.column_configs@.len() as int } else { column + 1 },
                forall|k: int| 0 <= k < s.column_configs@.len() ==> if k < self.column_configs@.len() {
                    #[trigger] s.column_configs@[k] == self.column_configs@[k]
                } else {
                    is_default_column(s.column_configs@[k])
                },
                s.data == self.data,
                s.border_style == self.border_style,
                s.render_options == self.render_options,
                s.validation_config == self.validation_config,
                s.performance_config == self.performance_config,
            decreases column + 1 - s.column_configs@.len(),
        {
            s.column_configs.push(ColumnConfig::default());
        }
        s.column_configs.set(column, config);
        s
    }

    /// The given column settings.
    pub fn with_column_configs(self, configs: Vec<ColumnConfig>) -> (res: Self)
        ensures
            res == (TableBuilder { column_configs: configs, ..self }),
    {
        TableBuilder { column_configs: configs, ..self }
    }

    /// One default column setting with the given alignment per column of the first row.
    pub fn with_alignment(self, alignment: Alignment) -> (res: Self)
        ensures
            res.column_configs@.len() == column_count_of(table_view(self.data.rows@)),
            forall|k: int| 0 <= k < res.column_configs@.len() ==> (#[trigger] res.column_configs@[k]).alignment == alignment
                && is_default_column(ColumnConfig { alignment: Alignment::Left, ..res.column_configs@[k] }),
            res.data == self.data,
            res.border_style == self.border_style,
            res.render_options == self.render_options,
            res.validation_config == self.validation_config,
            res.performance_config == self.performance_config,
    {
        let n = self.data.column_count();
        let mut v: Vec<ColumnConfig> = Vec::new();
        let mut i: usize = 0;
        while i < n
            invariant
                i <= n,
                v@.len() == i,
                forall|k: int| 0 <= k < i ==> (#[trigger] v@[k]).alignment == alignment
                    && is_default_column(ColumnConfig { alignment: Alignment::Left, ..v@[k] }),
            decreases n - i,
        {
            v.push(ColumnConfig::new().with_alignment(alignment));
            i = i + 1;
        }
        TableBuilder { column_configs: v, ..self }
    }

    /// Every column setting given the width.
    pub fn with_width(self, width: usize) -> (res: Self)
        ensures
            res.column_configs@.len() == self.column_configs@.len(),
            forall|k: int| 0 <= k < res.column_configs@.len() ==> #[trigger] res.column_configs@[k] == (ColumnConfig { width: Some(width), ..self.column_configs@[k] }),
            res.data == self.data,
            res.border_style == self.border_style,
            res.render_options == self.render_options,
            res.validation_config == self.validation_config,
            res.performance_config == self.performance_config,
    {
        let mut v: Vec<ColumnConfig> = Vec::new();
        let mut i: usize = 0;
        while i < self.column_configs.len()
            invariant
                i <= self.column_configs@.len(),
                v@.len() == i,
                forall|k: int| 0 <= k < i ==> #[trigger] v@[k] == (ColumnConfig { width: Some(width), ..self.column_configs@[k] }),
            decreases self.column_configs.len() - i,
        {
            v.push(self.column_configs[i].duplicate().with_width(width));
            i = i + 1;
        }
        TableBuilder { column_configs: v, ..self }
    }

    /// Every column setting given the padding.
    pub fn with_padding(self, padding: Padding) -> (res: Self)
        ensures
            res.column_configs@.len() == self.column_configs@.len(),
            forall|k: int| 0 <= k < res.column_configs@.len() ==> #[trigger] res.column_configs@[k] == (ColumnConfig { padding, ..self.column_configs@[k] }),
            res.data == self.data,
            res.border_style == self.border_style,
            res.render_options == self.render_options,
            res.validation_config == self.validation_config,
            res.performance_config == self.performance_config,
    {
        let mut v: Vec<ColumnConfig> = Vec::new();
        let mut i: usize = 0;
        while i < self.column_configs.len()
            invariant
                i <= self.column_configs@.len(),
                v@.len() == i,
                forall|k: int| 0 <= k < i ==> #[trigger] v@[k] == (ColumnConfig { padding, ..self.column_configs@[k] }),
            decreases self.column_configs.len() - i,
        {
            v.push(self.column_configs[i].duplicate().with_padding(padding));
            i = i + 1;
        }
        TableBuilder { column_configs: v, ..self }
    }

    /// Validation with the default settings before drawing.
    pub fn with_validation(self) -> (res: Self)
        ensures
            res == (TableBuilder { validation_config: Some(crate::validation::default_validation()), ..self }),
    {
        TableBuilder { validation_config: Some(ValidationConfig::default()), ..self }
    }

    /// Validation with the given settings before drawing.
    pub fn with_validation_config(self, config: ValidationConfig) -> (res: Self)
        ensures
            res == (TableBuilder { validation_config: Some(config), ..self }),
    {
        TableBuilder { validation_config: Some(config), ..self }
    }

    /// Drawing with the fast renderer and the default performance settings.
    pub fn with_performance_optimization(self) -> (res: Self)
        ensures
            res == (TableBuilder { performance_config: Some(PerformanceConfig { enable_caching: true, cache_size_limit: 1000, use_string_pool: true, optimize_memory: true }), ..self }),
    {
        TableBuilder { performance_config: Some(PerformanceConfig::default()), ..self }
    }

    /// Drawing with the fast renderer and the given settings.
    pub fn with_performance_config(self, config: PerformanceConfig) -> (res: Self)
        ensures
            res == (TableBuilder { performance_config: Some(config), ..self }),
    {
        TableBuilder { performance_config: Some(config), ..self }
    }

    /// Draws the table without validating it (see `build_unchecked_ok`).
    pub fn build_unchecked(self) -> (res: Result<String, String>)
        requires
            plain_cells_ok(table_view(self.data.rows@), self.column_configs@),
        ensures
            build_unchecked_ok(self, res),
    {
        let border = match resolve_border(self.border_style.as_str()) {
            Ok(b) => b,
            Err(e) => {
                return Err(e);
            },
        };
        match self.performance_config {
            Some(p) => {
                let mut renderer = FastTableRenderer::new(p);
                renderer.render_table(&self.data, &border, &self.render_options, self.column_configs.as_slice())
            },
            None => render_table_with_column_config(&self.data, &border, &self.render_options, self.column_configs.as_slice()),
        }
    }

    /// Validates the table first when validation is set, refusing it with the report when it
    /// is not valid; then draws it as `build_unchecked`.
    pub fn build(self) -> (res: Result<String, String>)
        requires
            plain_cells_ok(table_view(self.data.rows@), self.column_configs@),
            self.validation_config is Some ==> memory_estimate(table_view(self.data.rows@)) <= usize::MAX,
        ensures
            match self.validation_config {
                Some(vc) => if validate_error_findings(table_view(self.data.rows@), vc).len() > 0 {
                    res matches Err(m) && exists|r: ValidationResult|
                        findings(r.errors@) == validate_error_findings(table_view(self.data.rows@), vc)
                        && findings(r.warnings@) == validate_warning_findings(table_view(self.data.rows@), vc) + config_warning_findings(table_view(self.data.rows@), self.column_configs@)
                        && findings(r.info@) == validate_info_findings(table_view(self.data.rows@), vc)
                        && !r.is_valid && scored(r)
                        && m@ == "Table validation failed:\n"@ + report_text(r)
                } else {
                    build_unchecked_ok(self, res)
                },
                None => build_unchecked_ok(self, res),
            },
    {
        if let Some(vc) = self.validation_config {
            let validator = TableValidator::new(vc);
            let result = validator.validate_with_config(&self.data, self.column_configs.as_slice());
            if !result.is_valid {
                let report = result.report();
                return Err(concat2("Table validation failed:\n", report.as_str()));
            }
        }
        self.build_unchecked()
    }

    /// The rows.
    pub fn get_data(&self) -> (res: &TableData)
        ensures
            *res == self.data,
    {
        &self.data
    }

    /// A description of the builder's settings (see `preview_text`).
    pub fn preview_config(&self) -> (res: String)
        ensures
            res@ == preview_text(*self),
    {
        let a = concat3("=== Table Configuration Preview ===\n", "Rows: ", usize_to_string(self.data.row_count()).as_str());
        let b = concat3(a.as_str(), "\nColumns: ", usize_to_string(self.data.column_count()).as_str());
        let c = concat3(b.as_str(), "\nBorder Style: ", self.border_style.as_str());
        let d = concat3(c.as_str(), "\nRender Options: ", options_text(&self.render_options).as_str());
        let e = concat3(d.as_str(), "\nColumn Configs: ", usize_to_string(self.column_configs.len()).as_str());
        let f = concat3(e.as_str(), " configured\nValidation: ", if self.validation_config.is_some() { "Enabled" } else { "Disabled" });
        let g = concat3(f.as_str(), "\nPerformance: ", if self.performance_config.is_some() { "Enabled" } else { "Disabled" });
        concat2(g.as_str(), "\n")
    }

    /// A copy of the builder.
    pub fn duplicate(&self) -> (res: Self)
        ensures
            table_view(res.data.rows@) == table_view(self.data.rows@),
            same_settings(*self, res),
    {
        TableBuilder {
            data: copy_data(&self.data),
            column_configs: copy_configs(&self.column_configs),
            border_style: owned(self.border_style.as_str()),
            render_options: self.render_options,
            validation_config: self.validation_config,
            performance_config: self.performance_config,
        }
    }
}

/// `true` or `false`.
pub open spec fn bool_text(b: bool) -> Seq<char> {
    if b {
        "true"@
    } else {
        "false"@
    }
}

/// The debug form of line settings.
pub open spec fn options_spec(o: RenderOptions) -> Seq<char> {
    "RenderOptions { show_top_border: "@ + bool_text(o.show_top_border) + ", show_bottom_border: "@ + bool_text(o.show_bottom_border) + ", show_row_separators: "@ + bool_text(o.show_row_separators) + " }"@
}

/// `true` or `false`.
fn bool_string(b: bool) -> (res: &'static str)
    ensures
        res@ == bool_text(b),
{
    if b {
        "true"
    } else {
        "false"
    }
}

/// The debug form of line settings.
fn options_text(o: &RenderOptions) -> (res: String)
    ensures
        res@ == options_spec(*o),
{
    let a = concat3("RenderOptions { show_top_border: ", bool_string(o.show_top_border), ", show_bottom_border: ");
    let b = concat3(a.as_str(), bool_string(o.show_bottom_border), ", show_row_separators: ");
    concat3(b.as_str(), bool_string(o.show_row_separators), " }")
}

/// What `preview_config` gives: a heading, then the numbers of rows and columns, the border
/// style, the line settings, the number of column settings and whether validation and the
/// fast renderer are on, one per line.
pub open spec fn preview_text(b: TableBuilder) -> Seq<char> {
    "=== Table Configuration Preview ===\n"@ + "Rows: "@ + decimal(b.data.rows@.len()) + "\nColumns: "@
        + decimal(column_count_of(table_view(b.data.rows@))) + "\nBorder Style: "@ + b.border_style@
        + "\nRender Options: "@ + options_spec(b.render_options) + "\nColumn Configs: "@ + decimal(b.column_configs@.len())
        + " configured\nValidation: "@ + (if b.validation_config is Some { "Enabled"@ } else { "Disabled"@ })
        + "\nPerformance: "@ + (if b.performance_config is Some { "Enabled"@ } else { "Disabled"@ }) + "\n"@
}

/// The rows of a CSV text (see `csv_rows`).
pub(crate) fn csv_parse(csv: &str, sep: &str) -> (res: Vec<Row>)
    ensures
        table_view(res@) == csv_rows(csv@, sep@),
{
    let ls = lines(csv);
    let mut rows: Vec<Row> = Vec::new();
    let mut i: usize = 0;
    while i < ls.len()
        invariant
            i <= ls.len(),
            views(ls@) == lines_of(csv@),
            table_view(rows@) == csv_rows_from(lines_of(csv@), sep@, 0, i as int),
        decreases ls.len() - i,
    {
        let line = ls[i].as_str();
        assert(views(ls@)[i as int] == line@);
        let trimmed = trim(line);
        if !trimmed.as_str().is_empty() {
            let parts = split_str(line, sep);
            let mut row: Row = Vec::new();
            let mut k: usize = 0;
            while k < parts.len()
                invariant
                    k <= parts.len(),
                    views(row@) == views(parts@).take(k as int).map_values(|f: Seq<char>| clean_field(f)),
                decreases parts.len() - k,
            {
                let a = trim_matches(parts[k].as_str(), '"');
                let b = trim(a.as_str());
                let ghost before = views(row@);
                row.push(b);
                assert(views(row@) =~= before.push(b@));
                assert(views(parts@)[k as int] == parts@[k as int]@);
                k = k + 1;
                assert(views(row@) =~= views(parts@).take(k as int).map_values(|f: Seq<char>| clean_field(f)));
            }
            assert(views(parts@).take(k as int) =~= views(parts@));
            let ghost before = table_view(rows@);
            let ghost rv = views(row@);
            rows.push(row);
            assert(table_view(rows@) =~= before.push(rv));
        }
        i = i + 1;
    }
    rows
}

/// A field of a CSV line without surrounding quotes, then without surrounding whitespace.
pub open spec fn clean_field(f: Seq<char>) -> Seq<char> {
    trim_spec(trim_matches_spec(f, '"'))
}

/// The rows of the lines `i..n` that are not blank.
pub open spec fn csv_rows_from(ls: Seq<Seq<char>>, sep: Seq<char>, i: int, n: int) -> Seq<Seq<Seq<char>>>
    decreases n - i,
{
    if n <= i {
        Seq::empty()
    } else {
        csv_rows_from(ls, sep, i, n - 1) + if trim_spec(ls[n - 1]).len() == 0 {
            Seq::empty()
        } else {
            seq![split_pieces(ls[n - 1], sep).map_values(|f: Seq<char>| clean_field(f))]
        }
    }
}

/// The rows of a CSV text: one per non-blank line, its fields split at `sep` and cleaned.
pub open spec fn csv_rows(csv: Seq<char>, sep: Seq<char>) -> Seq<Seq<Seq<char>>> {
    csv_rows_from(lines_of(csv), sep, 0, lines_of(csv).len() as int)
}


/// Whether `b` is an empty builder with no column settings, no validation and no performance
/// settings, the border style `style` and the line settings `o`.
pub open spec fn empty_builder(b: TableBuilder, style: Seq<char>, o: RenderOptions) -> bool {
    &&& b.data.rows@.len() == 0
    &&& b.column_configs@.len() == 0
    &&& b.border_style@ == style
    &&& b.render_options == o
    &&& b.validation_config is None
    &&& b.performance_config is None
}

/// Builders with ready-made looks.
pub struct ThemedTableBuilder {
    pub builder: TableBuilder,
}

impl ThemedTableBuilder {
    /// An empty builder with ASCII borders.
    pub fn minimal() -> (res: TableBuilder)
        ensures
            empty_builder(res, "ascii"@, default_options()),
    {
        TableBuilder::new().with_border_style("ascii").with_alignment(Alignment::Left).with_padding(
            Padding::new(1, 1),
        )
    }

    /// An empty builder with the default border.
    pub fn fancy() -> (res: TableBuilder)
        ensures
            empty_builder(res, "default"@, default_options()),
    {
        TableBuilder::new().with_border_style("default").with_top_border().with_bottom_border().with_alignment(
            Alignment::Center,
        ).with_padding(Padding::symmetric(2))
    }

    /// An empty builder with no border.
    pub fn compact() -> (res: TableBuilder)
        ensures
            empty_builder(res, "void"@, default_options()),
    {
        TableBuilder::new().with_border_style("void").with_alignment(Alignment::Left).with_padding(
            Padding::new(0, 1),
        )
    }

    /// An empty builder with the default border, meant for numbers.
    pub fn data_table() -> (res: TableBuilder)
        ensures
            empty_builder(res, "default"@, default_options()),
    {
        TableBuilder::new().with_border_style("default").with_top_border().with_bottom_border().with_alignment(
            Alignment::Right,
        ).with_padding(Padding::symmetric(1))
    }

    /// An empty builder with the `honeywell` border and lines between rows.
    pub fn report() -> (res: TableBuilder)
        ensures
            empty_builder(res, "honeywell"@, RenderOptions { show_row_separators: true, ..default_options() }),
    {
        TableBuilder::new().with_border_style("honeywell").with_top_border().with_bottom_border().with_row_separators().with_alignment(
            Alignment::Left,
        ).with_padding(Padding::new(1, 2))
    }
}

/// Builds the settings of one column step by step.
pub struct ColumnBuilder {
    config: ColumnConfig,
}

impl View for ColumnBuilder {
    type V = ColumnConfig;

    closed spec fn view(&self) -> ColumnConfig {
        self.config
    }
}

impl ColumnBuilder {
    /// The default settings.
    pub fn new() -> (res: Self)
        ensures
            is_default_column(res@),
    {
        ColumnBuilder { config: ColumnConfig::default() }
    }

    /// The same settings with the given width.
    pub fn width(self, width: usize) -> (res: Self)
        ensures
            res@ == (ColumnConfig { width: Some(width), ..self@ }),
    {
        ColumnBuilder { config: self.config.with_width(width) }
    }

    /// The same settings with the given alignment.
    pub fn alignment(self, alignment: Alignment) -> (res: Self)
        ensures
            res@ == (ColumnConfig { alignment, ..self@ }),
    {
        ColumnBuilder { config: self.config.with_alignment(alignment) }
    }

    /// The same settings with the given padding.
    pub fn padding(self, padding: Padding) -> (res: Self)
        ensures
            res@ == (ColumnConfig { padding, ..self@ }),
    {
        ColumnBuilder { config: self.config.with_padding(padding) }
    }

    /// The same settings, left-aligned.
    pub fn left_aligned(self) -> (res: Self)
        ensures
            res@ == (ColumnConfig { alignment: Alignment::Left, ..self@ }),
    {
        self.alignment(Alignment::Left)
    }

    /// The same settings, centred.
    pub fn center_aligned(self) -> (res: Self)
        ensures
            res@ == (ColumnConfig { alignment: Alignment::Center, ..self@ }),
    {
        self.alignment(Alignment::Center)
    }

    /// The same settings, right-aligned.
    pub fn right_aligned(self) -> (res: Self)
        ensures
            res@ == (ColumnConfig { alignment: Alignment::Right, ..self@ }),
    {
        self.alignment(Alignment::Right)
    }

    /// The same settings, cut to `max_width` with the default ellipsis at the end.
    pub fn truncate(self, max_width: usize) -> (res: Self)
        ensures
            res@.width == self@.width,
            res@.alignment == self@.alignment,
            res@.vertical_alignment == self@.vertical_alignment,
            res@.padding == self@.padding,
            res@.wrap_config == self@.wrap_config,
            res@.truncation.max_width == Some(max_width),
            res@.truncation.ellipsis@ == "..."@,
            !res@.truncation.truncate_start,
    {
        ColumnBuilder { config: self.config.with_truncation(TruncationConfig::new().with_max_width(max_width)) }
    }

    /// The same settings, wrapped by words at `width`.
    pub fn wrap(self, width: usize) -> (res: Self)
        ensures
            res@ == (ColumnConfig { wrap_config: Some(WrapConfig { width, mode: WrapMode::Word, preserve_whitespace: false }), ..self@ }),
    {
        ColumnBuilder { config: self.config.with_wrapping(WrapConfig::new(width)) }
    }

    /// The settings.
    pub fn build(self) -> (res: ColumnConfig)
        ensures
            res == self@,
    {
        self.config
    }
}

/// A named builder to start tables from.
pub struct TableTemplate {
    name: String,
    prototype: TableBuilder,
}

impl TableTemplate {
    /// The template's name.
    pub closed spec fn name_view(&self) -> Seq<char> {
        self.name@
    }

    /// The builder each table starts from.
    pub closed spec fn prototype(&self) -> TableBuilder {
        self.prototype
    }

    /// A template of the given name that starts tables from `prototype`.
    pub fn new(name: &str, prototype: TableBuilder) -> (res: Self)
        ensures
            res.name_view() == name@,
            res.prototype() == prototype,
    {
        TableTemplate { name: owned(name), prototype }
    }

    /// A fresh builder like the prototype.
    pub fn create(&self) -> (res: TableBuilder)
        ensures
            table_view(res.data.rows@) == table_view(self.prototype().data.rows@),
            same_settings(self.prototype(), res),
    {
        self.prototype.duplicate()
    }

    /// The template's name.
    pub fn name(&self) -> (res: &str)
        ensures
            res@ == self.name_view(),
    {
        self.name.as_str()
    }
}

/// Named templates; registering a name again replaces its template.
pub struct TemplateRegistry {
    templates: Vec<TableTemplate>,
}

/// The names of a list of templates.
pub open spec fn template_names(v: Seq<TableTemplate>) -> Seq<Seq<char>> {
    v.map_values(|t: TableTemplate| t.name_view())
}

impl TemplateRegistry {
    /// The names of the registered templates, in the order they were first registered.
    pub closed spec fn names(&self) -> Seq<Seq<char>> {
        template_names(self.templates@)
    }

    /// The template registered under `name`, if any.
    pub closed spec fn lookup(&self, name: Seq<char>) -> Option<TableTemplate> {
        let i = template_names(self.templates@).index_of_first(name);
        match i {
            Some(k) => Some(self.templates@[k]),
            None => None,
        }
    }

    /// A registry of the built-in templates: `minimal`, `fancy`, `compact`, `data`, `report`
    /// and `web`.
    pub fn new() -> (res: Self)
        ensures
            res.names() == seq!["minimal"@, "fancy"@, "compact"@, "data"@, "report"@, "web"@],
    {
        let mut registry = TemplateRegistry { templates: Vec::new() };
        registry.register_builtin_templates();
        registry
    }

    /// Registers a template under its name, replacing one of the same name.
    pub fn register(&mut self, template: TableTemplate)
        ensures
            old(self).names().contains(template.name_view()) ==> final(self).names() == old(self).names(),
            !old(self).names().contains(template.name_view()) ==> final(self).names() == old(self).names().push(template.name_view()),
            final(self).lookup(template.name_view()) == Some(template),
            forall|n: Seq<char>| n != template.name_view() ==> #[trigger] final(self).lookup(n) == old(self).lookup(n),
    {
        let ghost before = self.templates@;
        let mut i: usize = 0;
        while i < self.templates.len()
            invariant
                i <= self.templates@.len(),
                self.templates@ == before,
                before == old(self).templates@,
                forall|k: int| 0 <= k < i ==> (#[trigger] self.templates@[k]).name_view() != template.name_view(),
            decreases self.templates.len() - i,
        {
            if str_eq(self.templates[i].name.as_str(), template.name.as_str()) {
                let ghost names = template_names(before);
                proof {
                    assert(names[i as int] == template.name_view());
                    assert(names.contains(template.name_view()));
                    lemma_first_index(names, template.name_view(), i as int);
                }
                self.templates.set(i, template);
                proof {
                    assert(template_names(self.templates@) =~= names);
                    assert forall|n: Seq<char>| n != template.name_view() implies #[trigger] self.lookup(n) == old(self).lookup(n) by {
                        lemma_index_of_first_same(names, n);
                        if let Some(k) = names.index_of_first(n) {
                            assert(names[k] == n);
                        }
                    }
                }
                return;
            }
            i = i + 1;
        }
        let ghost names = template_names(before);
        assert(!names.contains(template.name_view())) by {
            if names.contains(template.name_view()) {
                let k = choose|k: int| 0 <= k < names.len() && names[k] == template.name_view();
                assert(before[k].name_view() == template.name_view());
            }
        }
        self.templates.push(template);
        proof {
            let names2 = template_names(self.templates@);
            assert(names2 =~= names.push(template.name_view()));
            lemma_first_index(names2, template.name_view(), names.len() as int);
            assert forall|n: Seq<char>| n != template.name_view() implies #[trigger] self.lookup(n) == old(self).lookup(n) by {
                lemma_index_of_first_push(names, template.name_view(), n);
                lemma_index_of_first_same(names, n);
                if let Some(k) = names.index_of_first(n) {
                    assert(self.templates@[k] == before[k]);
                }
            }
        }
    }

    /// A fresh builder from the template registered under `name`, if any.
    pub fn get(&self, name: &str) -> (res: Option<TableBuilder>)
        ensures
            match self.lookup(name@) {
                Some(t) => res matches Some(b) && table_view(b.data.rows@) == table_view(t.prototype().data.rows@) && same_settings(t.prototype(), b),
                None => res is None,
            },
    {
        let ghost names = template_names(self.templates@);
        let mut i: usize = 0;
        while i < self.templates.len()
            invariant
                i <= self.templates@.len(),
                names == template_names(self.templates@),
                forall|k: int| 0 <= k < i ==> names[k] != name@,
            decreases self.templates.len() - i,
        {
            if str_eq(self.templates[i].name.as_str(), name) {
                proof {
                    lemma_first_index(names, name@, i as int);
                }
                return Some(self.templates[i].create());
            }
            i = i + 1;
        }
        proof {
            if names.contains(name@) {
                let k = choose|k: int| 0 <= k < names.len() && names[k] == name@;
                assert(names[k] != name@);
            }
            lemma_index_of_first_absent(names, name@);
        }
        None
    }

    /// The names of the registered templates.
    pub fn list_templates(&self) -> (res: Vec<&str>)
        ensures
            res@.len() == self.names().len(),
            forall|k: int| 0 <= k < res@.len() ==> (#[trigger] res@[k])@ == self.names()[k],
    {
        let mut out: Vec<&str> = Vec::new();
        let mut i: usize = 0;
        while i < self.templates.len()
            invariant
                i <= self.templates@.len(),
                out@.len() == i,
                forall|k: int| 0 <= k < i ==> (#[trigger] out@[k])@ == template_names(self.templates@)[k],
            decreases self.templates.len() - i,
        {
            out.push(self.templates[i].name.as_str());
            i = i + 1;
        }
        out
    }

    /// Registers the built-in templates into an empty registry.
    fn register_builtin_templates(&mut self)
        requires
            old(self).names().len() == 0,
        ensures
            final(self).names() == seq!["minimal"@, "fancy"@, "compact"@, "data"@, "report"@, "web"@],
    {
        let web = TableBuilder::new().with_border_style("void").with_validation_config(
            ValidationConfig::web_optimized(),
        ).with_alignment(Alignment::Left);
        let all = vec![
            TableTemplate::new("minimal", ThemedTableBuilder::minimal()),
            TableTemplate::new("fancy", ThemedTableBuilder::fancy()),
            TableTemplate::new("compact", ThemedTableBuilder::compact()),
            TableTemplate::new("data", ThemedTableBuilder::data_table()),
            TableTemplate::new("report", ThemedTableBuilder::report()),
            TableTemplate::new("web", web),
        ];
        let ghost wanted = seq!["minimal"@, "fancy"@, "compact"@, "data"@, "report"@, "web"@];
        proof {
            reveal_strlit("minimal");
            reveal_strlit("fancy");
            reveal_strlit("compact");
            reveal_strlit("data");
            reveal_strlit("report");
            reveal_strlit("web");
        }
        assert(template_names(all@) =~= wanted);
        assert(wanted[0][0] != wanted[2][0]);
        assert(forall|a: int, b: int| 0 <= a < b < 6 ==> #[trigger] wanted[a] != #[trigger] wanted[b]) by {
            assert(wanted[0].len() == 7 && wanted[1].len() == 5 && wanted[2].len() == 7);
            assert(wanted[3].len() == 4 && wanted[4].len() == 6 && wanted[5].len() == 3);
        }
        let mut it = all;
        let mut i: usize = 0;
        let n = it.len();
        let ghost allv = it@;
        while i < n
            invariant
                n == allv.len(),
                i <= n,
                template_names(allv) == wanted,
                wanted.len() == 6,
                forall|a: int, b: int| 0 <= a < b < 6 ==> #[trigger] wanted[a] != #[trigger] wanted[b],
                self.names() == wanted.take(i as int),
                it@ == allv,
            decreases n - i,
        {
            let ghost before = self.names();
            assert(!before.contains(wanted[i as int])) by {
                if before.contains(wanted[i as int]) {
                    let k = choose|k: int| 0 <= k < before.len() && before[k] == wanted[i as int];
                    assert(wanted[k] == wanted[i as int]);
                }
            }
            let t = it[i].duplicate();
            assert(t.name_view() == template_names(allv)[i as int]);
            self.register(t);
            i = i + 1;
            assert(self.names() =~= wanted.take(i as int));
        }
        assert(wanted.take(6) =~= wanted);
    }
}

impl TableTemplate {
    /// A copy of the template.
    pub fn duplicate(&self) -> (res: Self)
        ensures
            res.name_view() == self.name_view(),
            table_view(res.prototype().data.rows@) == table_view(self.prototype().data.rows@),
            same_settings(self.prototype(), res.prototype()),
    {
        TableTemplate { name: owned(self.name.as_str()), prototype: self.prototype.duplicate() }
    }
}

/// The first place of `x` in `s` is `i` when `s[i] == x` and no earlier place holds `x`.
proof fn lemma_first_index(s: Seq<Seq<char>>, x: Seq<char>, i: int)
    requires
        0 <= i < s.len(),
        s[i] == x,
        forall|k: int| 0 <= k < i ==> s[k] != x,
    ensures
        s.index_of_first(x) == Some(i),
{
    s.index_of_first_ensures(x);
    match s.index_of_first(x) {
        Some(j) => {
            if j < i {
                assert(s[j] == x);
            }
            if j > i {
                assert(s.contains(x));
            }
        },
        None => {
            assert(s.contains(x));
        },
    }
}

/// No first place of `x` in `s` when `s` does not hold it.
proof fn lemma_index_of_first_absent(s: Seq<Seq<char>>, x: Seq<char>)
    requires
        !s.contains(x),
    ensures
        s.index_of_first(x) is None,
{
    s.index_of_first_ensures(x);
}

/// The first place of `x` in `s` holds `x`.
proof fn lemma_index_of_first_same(s: Seq<Seq<char>>, x: Seq<char>)
    ensures
        s.index_of_first(x) matches Some(k) ==> 0 <= k < s.len() && s[k] == x,
{
    s.index_of_first_ensures(x);
}

/// Adding `y` at the end keeps the first place of any other `x`.
proof fn lemma_index_of_first_push(s: Seq<Seq<char>>, y: Seq<char>, x: Seq<char>)
    requires
        x != y,
    ensures
        s.push(y).index_of_first(x) == s.index_of_first(x),
{
    s.index_of_first_ensures(x);
    s.push(y).index_of_first_ensures(x);
    match s.index_of_first(x) {
        Some(i) => {
            assert(s.push(y)[i] == x);
            lemma_first_index(s.push(y), x, i);
        },
        None => {
            if s.push(y).contains(x) {
                let k = choose|k: int| 0 <= k < s.push(y).len() && s.push(y)[k] == x;
                assert(k < s.len());
                assert(s[k] == x);
                assert(s.contains(x));
            }
        },
    }
}

/// A fresh builder from the built-in template named `template_name`, if there is one.
pub fn from_template(template_name: &str) -> (res: Option<TableBuilder>)
    ensures
        res is Some <==> seq!["minimal"@, "fancy"@, "compact"@, "data"@, "report"@, "web"@].contains(template_name@),
{
    let registry = TemplateRegistry::new();
    let res = registry.get(template_name);
    proof {
        let names = registry.names();
        if names.contains(template_name@) {
            let k = choose|k: int| 0 <= k < names.len() && names[k] == template_name@;
            registry.lemma_lookup_names(template_name@, k);
        } else {
            registry.lemma_lookup_absent(template_name@);
        }
    }
    res
}

impl TemplateRegistry {
    /// A registered name has a template.
    pub proof fn lemma_lookup_names(&self, name: Seq<char>, k: int)
        requires
            0 <= k < self.names().len(),
            self.names()[k] == name,
        ensures
            self.lookup(name) is Some,
    {
        template_names(self.templates@).index_of_first_ensures(name);
        assert(template_names(self.templates@).contains(name));
    }

    /// An unregistered name has none.
    pub proof fn lemma_lookup_absent(&self, name: Seq<char>)
        requires
            !self.names().contains(name),
        ensures
            self.lookup(name) is None,
    {
        template_names(self.templates@).index_of_first_ensures(name);
    }
}

} // verus!
