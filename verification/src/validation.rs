use crate::alignment::ColumnConfig;
use crate::table_data::{column_count_of, TableData};
use crate::text::{concat2, decimal, owned, str_contains_char, str_ends_with_char, str_is_empty, str_starts_with_char, usize_to_string, views};
use crate::unicode::char_display_width;
use crate::utils::ansi::{byte_len, char_cols};
use crate::utils::formatting::table_view;
use vstd::prelude::*;

verus! {

/// A problem found in a table, or a note about it.
#[derive(Debug, Clone, PartialEq)]
pub enum ValidationError {
    EmptyTable,
    InconsistentRowLength { row_index: usize, expected: usize, actual: usize },
    ExcessiveColumnCount { count: usize, max_recommended: usize },
    ExcessiveRowCount { count: usize, max_recommended: usize },
    InvalidCellContent { row: usize, col: usize, issue: String },
    PerformanceWarning { issue: String, recommendation: String },
    ConfigurationIssue { issue: String },
    DataIntegrityIssue { issue: String },
}

/// A finding as a mathematical value: its kind, its numbers and its texts.
pub ghost enum Finding {
    EmptyTable,
    InconsistentRowLength { row_index: nat, expected: nat, actual: nat },
    ExcessiveColumnCount { count: nat, max_recommended: nat },
    ExcessiveRowCount { count: nat, max_recommended: nat },
    InvalidCellContent { row: nat, col: nat, issue: Seq<char> },
    PerformanceWarning { issue: Seq<char>, recommendation: Seq<char> },
    ConfigurationIssue { issue: Seq<char> },
    DataIntegrityIssue { issue: Seq<char> },
}

impl View for ValidationError {
    type V = Finding;

    open spec fn view(&self) -> Finding {
        match *self {
            ValidationError::EmptyTable => Finding::EmptyTable,
            ValidationError::InconsistentRowLength { row_index, expected, actual } => Finding::InconsistentRowLength {
                row_index: row_index as nat,
                expected: expected as nat,
                actual: actual as nat,
            },
            ValidationError::ExcessiveColumnCount { count, max_recommended } => Finding::ExcessiveColumnCount {
                count: count as nat,
                max_recommended: max_recommended as nat,
            },
            ValidationError::ExcessiveRowCount { count, max_recommended } => Finding::ExcessiveRowCount {
                count: count as nat,
                max_recommended: max_recommended as nat,
            },
            ValidationError::InvalidCellContent { row, col, issue } => Finding::InvalidCellContent {
                row: row as nat,
                col: col as nat,
                issue: issue@,
            },
            ValidationError::PerformanceWarning { issue, recommendation } => Finding::PerformanceWarning {
                issue: issue@,
                recommendation: recommendation@,
            },
            ValidationError::ConfigurationIssue { issue } => Finding::ConfigurationIssue { issue: issue@ },
            ValidationError::DataIntegrityIssue { issue } => Finding::DataIntegrityIssue { issue: issue@ },
        }
    }
}

/// What a finding says.
pub open spec fn finding_text(f: Finding) -> Seq<char> {
    match f {
        Finding::EmptyTable => "Table is empty - no rows or columns to render"@,
        Finding::InconsistentRowLength { row_index, expected, actual } => "Row "@ + decimal(row_index) + " has "@
            + decimal(actual) + " columns, expected "@ + decimal(expected) + " columns"@,
        Finding::ExcessiveColumnCount { count, max_recommended } => "Table has "@ + decimal(count)
            + " columns, which exceeds recommended maximum of "@ + decimal(max_recommended),
        Finding::ExcessiveRowCount { count, max_recommended } => "Table has "@ + decimal(count)
            + " rows, which exceeds recommended maximum of "@ + decimal(max_recommended),
        Finding::InvalidCellContent { row, col, issue } => cell_issue_text(row, col, issue),
        Finding::PerformanceWarning { issue, recommendation } => perf_text(issue, recommendation),
        Finding::ConfigurationIssue { issue } => "Configuration issue: "@ + issue,
        Finding::DataIntegrityIssue { issue } => "Data integrity issue: "@ + issue,
    }
}

/// The findings of a list, as values.
pub open spec fn findings(v: Seq<ValidationError>) -> Seq<Finding> {
    v.map_values(|e: ValidationError| e@)
}

/// The texts of a list of findings given as values.
pub open spec fn finding_texts(v: Seq<Finding>) -> Seq<Seq<char>> {
    v.map_values(|f: Finding| finding_text(f))
}

/// The texts of a list of findings are those of their values.
pub proof fn lemma_texts_of_findings(v: Seq<ValidationError>)
    ensures
        texts(v) == finding_texts(findings(v)),
{
    assert forall|i: int| 0 <= i < v.len() implies #[trigger] texts(v)[i] == finding_texts(findings(v))[i] by {
        assert(error_text(v[i]) == finding_text(v[i]@));
    }
    assert(texts(v) =~= finding_texts(findings(v)));
}

/// What a finding says.
pub open spec fn error_text(e: ValidationError) -> Seq<char> {
    match e {
        ValidationError::EmptyTable => "Table is empty - no rows or columns to render"@,
        ValidationError::InconsistentRowLength { row_index, expected, actual } => "Row "@ + decimal(
            row_index as nat,
        ) + " has "@ + decimal(actual as nat) + " columns, expected "@ + decimal(expected as nat)
            + " columns"@,
        ValidationError::ExcessiveColumnCount { count, max_recommended } => "Table has "@ + decimal(
            count as nat,
        ) + " columns, which exceeds recommended maximum of "@ + decimal(max_recommended as nat),
        ValidationError::ExcessiveRowCount { count, max_recommended } => "Table has "@ + decimal(
            count as nat,
        ) + " rows, which exceeds recommended maximum of "@ + decimal(max_recommended as nat),
        ValidationError::InvalidCellContent { row, col, issue } => cell_issue_text(row as nat, col as nat, issue@),
        ValidationError::PerformanceWarning { issue, recommendation } => perf_text(issue@, recommendation@),
        ValidationError::ConfigurationIssue { issue } => "Configuration issue: "@ + issue@,
        ValidationError::DataIntegrityIssue { issue } => "Data integrity issue: "@ + issue@,
    }
}

/// The text of a finding about one cell.
pub open spec fn cell_issue_text(row: nat, col: nat, issue: Seq<char>) -> Seq<char> {
    "Cell at row "@ + decimal(row) + ", column "@ + decimal(col) + " has invalid content: "@ + issue
}

/// The text of a performance warning.
pub open spec fn perf_text(issue: Seq<char>, recommendation: Seq<char>) -> Seq<char> {
    "Performance warning: "@ + issue + ". Recommendation: "@ + recommendation
}

/// The texts of a list of findings.
pub open spec fn texts(v: Seq<ValidationError>) -> Seq<Seq<char>> {
    v.map_values(|e: ValidationError| error_text(e))
}

/// `a`, then `b` in decimal, then `c`.
fn with_number(a: &str, n: usize, c: &str) -> (res: String)
    ensures
        res@ == a@ + decimal(n as nat) + c@,
{
    let x = concat2(a, usize_to_string(n).as_str());
    concat2(x.as_str(), c)
}

impl ValidationError {
    /// What the finding says.
    pub fn message(&self) -> (res: String)
        ensures
            res@ == error_text(*self),
    {
        proof {
            reveal_strlit("");
            assert(""@.len() == 0);
        }
        match self {
            ValidationError::EmptyTable => owned("Table is empty - no rows or columns to render"),
            ValidationError::InconsistentRowLength { row_index, expected, actual } => {
                let a = with_number("Row ", *row_index, " has ");
                let b = with_number(a.as_str(), *actual, " columns, expected ");
                with_number(b.as_str(), *expected, " columns")
            },
            ValidationError::ExcessiveColumnCount { count, max_recommended } => {
                let a = with_number("Table has ", *count, " columns, which exceeds recommended maximum of ");
                let r = with_number(a.as_str(), *max_recommended, "");
                assert(r@ =~= a@ + decimal(*max_recommended as nat));
                r
            },
            ValidationError::ExcessiveRowCount { count, max_recommended } => {
                let a = with_number("Table has ", *count, " rows, which exceeds recommended maximum of ");
                let r = with_number(a.as_str(), *max_recommended, "");
                assert(r@ =~= a@ + decimal(*max_recommended as nat));
                r
            },
            ValidationError::InvalidCellContent { row, col, issue } => {
                let a = with_number("Cell at row ", *row, ", column ");
                let b = with_number(a.as_str(), *col, " has invalid content: ");
                concat2(b.as_str(), issue.as_str())
            },
            ValidationError::PerformanceWarning { issue, recommendation } => {
                let a = concat2("Performance warning: ", issue.as_str());
                let b = concat2(a.as_str(), ". Recommendation: ");
                concat2(b.as_str(), recommendation.as_str())
            },
            ValidationError::ConfigurationIssue { issue } => concat2("Configuration issue: ", issue.as_str()),
            ValidationError::DataIntegrityIssue { issue } => concat2("Data integrity issue: ", issue.as_str()),
        }
    }
}

/// How serious a finding is.
#[derive(Debug, Clone, Copy, PartialEq, Eq, PartialOrd, Ord, Structural)]
pub enum Severity {
    Info,
    Warning,
    Error,
    Critical,
}

impl Severity {
    /// The severity's name in capitals.
    pub fn name(&self) -> (res: String)
        ensures
            res@ == match *self {
                Severity::Info => "INFO"@,
                Severity::Warning => "WARNING"@,
                Severity::Error => "ERROR"@,
                Severity::Critical => "CRITICAL"@,
            },
    {
        match self {
            Severity::Info => owned("INFO"),
            Severity::Warning => owned("WARNING"),
            Severity::Error => owned("ERROR"),
            Severity::Critical => owned("CRITICAL"),
        }
    }
}

/// The findings of a validation and a score from 0 to 100.
#[derive(Debug, Clone)]
pub struct ValidationResult {
    pub is_valid: bool,
    pub errors: Vec<ValidationError>,
    pub warnings: Vec<ValidationError>,
    pub info: Vec<ValidationError>,
    pub performance_score: u32,
}

/// The score after `e` errors and `w` warnings: 100, less 20 per error and 5 per warning,
/// not below 0.
pub open spec fn score_of(e: nat, w: nat) -> nat {
    if 20 * e + 5 * w >= 100 {
        0
    } else {
        (100 - 20 * e - 5 * w) as nat
    }
}

impl ValidationResult {
    /// No findings, valid, score 100.
    pub fn new() -> (res: Self)
        ensures
            res.is_valid,
            res.errors@.len() == 0,
            res.warnings@.len() == 0,
            res.info@.len() == 0,
            res.performance_score == 100,
    {
        ValidationResult {
            is_valid: true,
            errors: Vec::new(),
            warnings: Vec::new(),
            info: Vec::new(),
            performance_score: 100,
        }
    }

    /// Records an error: the result is no longer valid and the score drops by 20 (not below 0).
    pub fn add_error(&mut self, error: ValidationError)
        ensures
            !final(self).is_valid,
            final(self).errors@ == old(self).errors@.push(error),
            final(self).warnings@ == old(self).warnings@,
            final(self).info@ == old(self).info@,
            final(self).performance_score == if old(self).performance_score >= 20 {
                old(self).performance_score - 20
            } else {
                0
            },
    {
        self.is_valid = false;
        self.errors.push(error);
        self.performance_score = self.performance_score.saturating_sub(20);
    }

    /// Records a warning: the score drops by 5 (not below 0).
    pub fn add_warning(&mut self, warning: ValidationError)
        ensures
            final(self).is_valid == old(self).is_valid,
            final(self).errors@ == old(self).errors@,
            final(self).warnings@ == old(self).warnings@.push(warning),
            final(self).info@ == old(self).info@,
            final(self).performance_score == if old(self).performance_score >= 5 {
                old(self).performance_score - 5
            } else {
                0
            },
    {
        self.warnings.push(warning);
        self.performance_score = self.performance_score.saturating_sub(5);
    }

    /// Records a note.
    pub fn add_info(&mut self, info: ValidationError)
        ensures
            final(self).is_valid == old(self).is_valid,
            final(self).errors@ == old(self).errors@,
            final(self).warnings@ == old(self).warnings@,
            final(self).info@ == old(self).info@.push(info),
            final(self).performance_score == old(self).performance_score,
    {
        self.info.push(info);
    }

    /// Whether there are errors or warnings.
    pub fn has_issues(&self) -> (res: bool)
        ensures
            res == (self.errors@.len() > 0 || self.warnings@.len() > 0),
    {
        self.errors.len() > 0 || self.warnings.len() > 0
    }

    /// The number of errors.
    pub fn error_count(&self) -> (res: usize)
        ensures
            res == self.errors@.len(),
    {
        self.errors.len()
    }

    /// The number of warnings.
    pub fn warning_count(&self) -> (res: usize)
        ensures
            res == self.warnings@.len(),
    {
        self.warnings.len()
    }

    /// A readable report of the findings (see `report_text`).
    pub fn report(&self) -> (res: String)
        ensures
            res@ == report_text(*self),
    {
        let mut report = String::new();
        if self.is_valid && !self.has_issues() {
            crate::text::push_str(&mut report, "✅ Table validation passed with no issues\n");
            let s = with_number("Performance score: ", self.performance_score as usize, "/100\n");
            crate::text::push_str(&mut report, s.as_str());
            return report;
        }
        let head = owned("📋 Table Validation Report\n==========================\n");
        proof {
            reveal_strlit("📋 Table Validation Report\n==========================\n");
            reveal_strlit("📋 Table Validation Report\n");
            reveal_strlit("==========================\n");
            assert("📋 Table Validation Report\n==========================\n"@ =~= "📋 Table Validation Report\n"@ + "==========================\n"@);
        }
        let e = section("\n❌ ERRORS:\n", &self.errors);
        let w = section("\n⚠️  WARNINGS:\n", &self.warnings);
        let i = section("\n💡 INFO:\n", &self.info);
        let sc = with_number("\nPerformance score: ", self.performance_score as usize, "/100\n");
        let tail = if !self.is_valid {
            owned("\n❌ Validation failed - please fix errors before rendering\n")
        } else {
            String::new()
        };
        let r1 = crate::text::concat3(head.as_str(), e.as_str(), w.as_str());
        let r2 = crate::text::concat3(r1.as_str(), i.as_str(), sc.as_str());
        crate::text::concat2(r2.as_str(), tail.as_str())
    }
}

/// The findings numbered from 1, one per line, indented by two spaces.
pub open spec fn numbered_text(v: Seq<ValidationError>) -> Seq<char>
    decreases v.len(),
{
    if v.len() == 0 {
        Seq::empty()
    } else {
        numbered_text(v.drop_last()) + "  "@ + decimal(v.len()) + ": "@ + error_text(v.last()) + "\n"@
    }
}

/// `title` and the numbered findings, or nothing when there are none.
fn section(title: &str, v: &Vec<ValidationError>) -> (res: String)
    ensures
        res@ == if v@.len() > 0 {
            title@ + numbered_text(v@)
        } else {
            Seq::empty()
        },
{
    if v.len() > 0 {
        crate::text::concat2(title, numbered(v).as_str())
    } else {
        String::new()
    }
}

/// The findings numbered from 1.
fn numbered(v: &Vec<ValidationError>) -> (res: String)
    ensures
        res@ == numbered_text(v@),
{
    let mut out = String::new();
    let mut i: usize = 0;
    while i < v.len()
        invariant
            i <= v.len(),
            out@ == numbered_text(v@.take(i as int)),
        decreases v.len() - i,
    {
        let a = with_number("  ", i + 1, ": ");
        let m = v[i].message();
        crate::text::push_str(&mut out, a.as_str());
        crate::text::push_str(&mut out, m.as_str());
        crate::text::push_str(&mut out, "\n");
        assert(v@.take(i + 1).drop_last() =~= v@.take(i as int));
        i = i + 1;
    }
    assert(v@.take(i as int) =~= v@);
    out
}

/// What `report` gives: a pass line and the score when valid without issues; else a
/// heading, the numbered errors, warnings and notes under their headings when there are
/// any, the score, and a failure line when not valid.
pub open spec fn report_text(r: ValidationResult) -> Seq<char> {
    if r.is_valid && r.errors@.len() == 0 && r.warnings@.len() == 0 {
        "✅ Table validation passed with no issues\n"@ + "Performance score: "@ + decimal(
            r.performance_score as nat,
        ) + "/100\n"@
    } else {
        "📋 Table Validation Report\n"@ + "==========================\n"@ + (if r.errors@.len() > 0 {
            "\n❌ ERRORS:\n"@ + numbered_text(r.errors@)
        } else {
            Seq::empty()
        }) + (if r.warnings@.len() > 0 {
            "\n⚠️  WARNINGS:\n"@ + numbered_text(r.warnings@)
        } else {
            Seq::empty()
        }) + (if r.info@.len() > 0 {
            "\n💡 INFO:\n"@ + numbered_text(r.info@)
        } else {
            Seq::empty()
        }) + "\nPerformance score: "@ + decimal(r.performance_score as nat) + "/100\n"@ + (if !r.is_valid {
            "\n❌ Validation failed - please fix errors before rendering\n"@
        } else {
            Seq::empty()
        })
    }
}

/// Sizes above which a table is called large.
#[derive(Debug, Clone, Copy, PartialEq, Eq, Structural)]
pub struct PerformanceThresholds {
    pub large_table_rows: usize,
    pub large_table_columns: usize,
    pub very_large_cell_chars: usize,
}

/// What validation checks and where its limits lie.
#[derive(Debug, Clone, Copy, PartialEq, Eq, Structural)]
pub struct ValidationConfig {
    pub max_columns: Option<usize>,
    pub max_rows: Option<usize>,
    pub max_cell_length: Option<usize>,
    pub allow_empty_cells: bool,
    pub allow_inconsistent_rows: bool,
    pub check_unicode_issues: bool,
    pub check_ansi_sequences: bool,
    pub check_whitespace_issues: bool,
    pub performance_thresholds: PerformanceThresholds,
}

/// The strict limits.
pub open spec fn strict_validation() -> ValidationConfig {
    ValidationConfig {
                max_columns: Some(20),
                max_rows: Some(1000),
                max_cell_length: Some(200),
                allow_empty_cells: false,
                allow_inconsistent_rows: false,
                check_unicode_issues: true,
                check_ansi_sequences: true,
                check_whitespace_issues: true,
                performance_thresholds: PerformanceThresholds {
                    large_table_rows: 500,
                    large_table_columns: 10,
                    very_large_cell_chars: 100,
                },
            }
}

/// The limits for web pages.
pub open spec fn web_validation() -> ValidationConfig {
    ValidationConfig {
                max_columns: Some(10),
                max_rows: Some(500),
                max_cell_length: Some(300),
                allow_empty_cells: true,
                allow_inconsistent_rows: false,
                check_unicode_issues: true,
                check_ansi_sequences: false,
                check_whitespace_issues: true,
                performance_thresholds: PerformanceThresholds {
                    large_table_rows: 100,
                    large_table_columns: 8,
                    very_large_cell_chars: 200,
                },
            }
}

/// The default limits.
pub open spec fn default_validation() -> ValidationConfig {
    ValidationConfig {
        max_columns: Some(50),
        max_rows: Some(10000),
        max_cell_length: Some(1000),
        allow_empty_cells: true,
        allow_inconsistent_rows: false,
        check_unicode_issues: true,
        check_ansi_sequences: true,
        check_whitespace_issues: true,
        performance_thresholds: PerformanceThresholds {
            large_table_rows: 1000,
            large_table_columns: 20,
            very_large_cell_chars: 500,
        },
    }
}

impl Default for ValidationConfig {
    fn default() -> (res: Self)
        ensures
            res == default_validation(),
    {
        ValidationConfig {
            max_columns: Some(50),
            max_rows: Some(10000),
            max_cell_length: Some(1000),
            allow_empty_cells: true,
            allow_inconsistent_rows: false,
            check_unicode_issues: true,
            check_ansi_sequences: true,
            check_whitespace_issues: true,
            performance_thresholds: PerformanceThresholds {
                large_table_rows: 1000,
                large_table_columns: 20,
                very_large_cell_chars: 500,
            },
        }
    }
}

impl ValidationConfig {
    /// The default limits.
    pub fn new() -> (res: Self)
        ensures
            res == default_validation(),
    {
        Self::default()
    }

    /// Tighter limits; empty cells are noted.
    pub fn strict() -> (res: Self)
        ensures
            res == strict_validation(),
    {
        ValidationConfig {
            max_columns: Some(20),
            max_rows: Some(1000),
            max_cell_length: Some(200),
            allow_empty_cells: false,
            allow_inconsistent_rows: false,
            check_unicode_issues: true,
            check_ansi_sequences: true,
            check_whitespace_issues: true,
            performance_thresholds: PerformanceThresholds {
                large_table_rows: 500,
                large_table_columns: 10,
                very_large_cell_chars: 100,
            },
        }
    }

    /// No limits; rows of different lengths only warned about; no content checks.
    pub fn permissive() -> (res: Self)
        ensures
            res == (ValidationConfig {
                max_columns: None,
                max_rows: None,
                max_cell_length: None,
                allow_empty_cells: true,
                allow_inconsistent_rows: true,
                check_unicode_issues: false,
                check_ansi_sequences: false,
                check_whitespace_issues: false,
                performance_thresholds: PerformanceThresholds {
                    large_table_rows: 10000,
                    large_table_columns: 100,
                    very_large_cell_chars: 2000,
                },
            }),
    {
        ValidationConfig {
            max_columns: None,
            max_rows: None,
            max_cell_length: None,
            allow_empty_cells: true,
            allow_inconsistent_rows: true,
            check_unicode_issues: false,
            check_ansi_sequences: false,
            check_whitespace_issues: false,
            performance_thresholds: PerformanceThresholds {
                large_table_rows: 10000,
                large_table_columns: 100,
                very_large_cell_chars: 2000,
            },
        }
    }

    /// Limits for tables shown on a web page; escape sequences are not checked.
    pub fn web_optimized() -> (res: Self)
        ensures
            res == web_validation(),
    {
        ValidationConfig {
            max_columns: Some(10),
            max_rows: Some(500),
            max_cell_length: Some(300),
            allow_empty_cells: true,
            allow_inconsistent_rows: false,
            check_unicode_issues: true,
            check_ansi_sequences: false,
            check_whitespace_issues: true,
            performance_thresholds: PerformanceThresholds {
                large_table_rows: 100,
                large_table_columns: 8,
                very_large_cell_chars: 200,
            },
        }
    }
}

/// An emoji: emoticons, pictographs, transport symbols or regional indicators.
pub open spec fn is_emoji(c: char) -> bool {
    ('\u{1F600}' <= c && c <= '\u{1F64F}') || ('\u{1F300}' <= c && c <= '\u{1F5FF}') || (
    '\u{1F680}' <= c && c <= '\u{1F6FF}') || ('\u{1F1E6}' <= c && c <= '\u{1F1FF}')
}

/// A combining mark from the combining diacritical blocks or the half marks.
pub open spec fn is_combining(c: char) -> bool {
    ('\u{0300}' <= c && c <= '\u{036F}') || ('\u{1AB0}' <= c && c <= '\u{1AFF}') || (
    '\u{1DC0}' <= c && c <= '\u{1DFF}') || ('\u{20D0}' <= c && c <= '\u{20FF}') || ('\u{FE20}'
        <= c && c <= '\u{FE2F}')
}

/// The warnings about one cell.
pub open spec fn cell_warning_findings(cell: Seq<char>, r: nat, c: nat, cfg: ValidationConfig) -> Seq<Finding> {
    (if cell.len() == 0 && !cfg.allow_empty_cells {
        seq![Finding::InvalidCellContent { row: r, col: c, issue: "Cell is empty"@ }]
    } else {
        Seq::empty()
    }) + match cfg.max_cell_length {
        Some(m) => if byte_len(cell) > m {
            seq![Finding::InvalidCellContent { row: r, col: c, issue: "Cell content is "@ + decimal(byte_len(cell)) + " characters (max: "@ + decimal(m as nat) + ")"@ }]
        } else {
            Seq::empty()
        },
        None => Seq::empty(),
    }
}

/// A one-item list when `b` holds.
pub open spec fn note_if<A>(b: bool, t: A) -> Seq<A> {
    if b {
        seq![t]
    } else {
        Seq::empty()
    }
}

/// The notes about wide, emoji and combining characters in one cell.
pub open spec fn unicode_note_findings(cell: Seq<char>, r: nat, c: nat, cfg: ValidationConfig) -> Seq<Finding> {
    if cfg.check_unicode_issues {
        note_if(exists|k: int| 0 <= k < cell.len() && char_cols(#[trigger] cell[k]) > 1, Finding::InvalidCellContent { row: r, col: c, issue: "Cell contains wide Unicode characters - consider using Unicode-aware rendering"@ })
        + note_if(exists|k: int| 0 <= k < cell.len() && is_emoji(#[trigger] cell[k]), Finding::InvalidCellContent { row: r, col: c, issue: "Cell contains emoji characters - consider using emoji-aware rendering"@ })
        + note_if(exists|k: int| 0 <= k < cell.len() && is_combining(#[trigger] cell[k]), Finding::InvalidCellContent { row: r, col: c, issue: "Cell contains combining characters - width calculation may be affected"@ })
    } else {
        Seq::empty()
    }
}

/// The notes about escape sequences and whitespace in one cell.
pub open spec fn other_note_findings(cell: Seq<char>, r: nat, c: nat, cfg: ValidationConfig) -> Seq<Finding> {
    note_if(cfg.check_ansi_sequences && cell.contains('\u{1b}'), Finding::InvalidCellContent { row: r, col: c, issue: "Cell contains ANSI escape sequences - consider using ANSI-aware rendering"@ })
        + (if cfg.check_whitespace_issues {
        note_if((cell.len() > 0 && cell[0] == ' ') || (cell.len() > 0 && cell[cell.len() - 1] == ' '), Finding::InvalidCellContent { row: r, col: c, issue: "Cell has leading or trailing whitespace"@ })
        + note_if(cell.contains('\t'), Finding::InvalidCellContent { row: r, col: c, issue: "Cell contains tab characters - may affect alignment"@ })
        + note_if(cell.contains('\n'), Finding::InvalidCellContent { row: r, col: c, issue: "Cell contains newlines - consider using newline-aware rendering"@ })
    } else {
        Seq::empty()
    })
}

/// The notes about one cell.
pub open spec fn cell_info_findings(cell: Seq<char>, r: nat, c: nat, cfg: ValidationConfig) -> Seq<Finding> {
    unicode_note_findings(cell, r, c, cfg) + other_note_findings(cell, r, c, cfg)
}

/// The warnings about every cell, row by row.
pub open spec fn content_warning_findings(t: Seq<Seq<Seq<char>>>, cfg: ValidationConfig) -> Seq<Finding> {
    Seq::new(t.len(), |r: int| Seq::new(t[r].len(), |c: int| cell_warning_findings(t[r][c], r as nat, c as nat, cfg)).flatten()).flatten()
}

/// The notes about every cell, row by row.
pub open spec fn content_info_findings(t: Seq<Seq<Seq<char>>>, cfg: ValidationConfig) -> Seq<Finding> {
    Seq::new(t.len(), |r: int| Seq::new(t[r].len(), |c: int| cell_info_findings(t[r][c], r as nat, c as nat, cfg)).flatten()).flatten()
}

/// The findings for the rows among the first `n` whose length is not `m`.
pub open spec fn bad_row_findings(t: Seq<Seq<Seq<char>>>, m: nat, n: int) -> Seq<Finding>
    decreases n,
{
    if n <= 0 {
        Seq::empty()
    } else {
        bad_row_findings(t, m, n - 1) + if t[n - 1].len() != m {
            seq![Finding::InconsistentRowLength { row_index: (n - 1) as nat, expected: m, actual: t[n - 1].len() }]
        } else {
            Seq::empty()
        }
    }
}

/// The errors about the table's shape.
pub open spec fn structure_error_findings(t: Seq<Seq<Seq<char>>>, cfg: ValidationConfig) -> Seq<Finding> {
    if t.len() == 0 {
        seq![Finding::EmptyTable]
    } else {
        let m = column_count_of(t);
        (if !cfg.allow_inconsistent_rows {
            bad_row_findings(t, m, t.len() as int)
        } else {
            Seq::empty()
        }) + (match cfg.max_columns {
            Some(mc) => note_if(m > mc, Finding::ExcessiveColumnCount { count: m, max_recommended: mc as nat }),
            None => Seq::empty(),
        }) + match cfg.max_rows {
            Some(mr) => note_if(t.len() > mr, Finding::ExcessiveRowCount { count: t.len(), max_recommended: mr as nat }),
            None => Seq::empty(),
        }
    }
}

/// The warnings about the table's shape.
pub open spec fn structure_warning_findings(t: Seq<Seq<Seq<char>>>, cfg: ValidationConfig) -> Seq<Finding> {
    if t.len() > 0 && cfg.allow_inconsistent_rows {
        bad_row_findings(t, column_count_of(t), t.len() as int)
    } else {
        Seq::empty()
    }
}

/// Whether a result's score matches its numbers of errors and warnings.
pub open spec fn scored(r: ValidationResult) -> bool {
    r.performance_score == score_of(r.errors@.len(), r.warnings@.len())
}

impl TableValidator {
    /// A validator with the given settings.
    pub fn new(config: ValidationConfig) -> (res: Self)
        ensures
            res.config == config,
    {
        TableValidator { config }
    }

    /// Records the shape errors and warnings (see `structure_error_findings`).
    fn validate_structure(&self, data: &TableData, result: &mut ValidationResult)
        requires
            scored(*old(result)),
        ensures
            scored(*final(result)),
            findings(final(result).errors@) == findings(old(result).errors@) + structure_error_findings(table_view(data.rows@), self.config),
            findings(final(result).warnings@) == findings(old(result).warnings@) + structure_warning_findings(table_view(data.rows@), self.config),
            final(result).info@ == old(result).info@,
            final(result).is_valid == (old(result).is_valid && structure_error_findings(table_view(data.rows@), self.config).len() == 0),
    {
        let ghost t = table_view(data.rows@);
        let ghost e0 = findings(result.errors@);
        let ghost w0 = findings(result.warnings@);
        if data.is_empty() {
            add_error_scored(result, ValidationError::EmptyTable);
            return;
        }
        let expected = data.column_count();
        let mut i: usize = 0;
        while i < data.rows.len()
            invariant
                i <= data.rows.len(),
                t == table_view(data.rows@),
                t.len() > 0,
                expected == column_count_of(t),
                scored(*result),
                result.info@ == old(result).info@,
                !self.config.allow_inconsistent_rows ==> findings(result.errors@) == e0 + bad_row_findings(t, expected as nat, i as int),
                !self.config.allow_inconsistent_rows ==> findings(result.warnings@) == w0,
                self.config.allow_inconsistent_rows ==> findings(result.warnings@) == w0 + bad_row_findings(t, expected as nat, i as int),
                self.config.allow_inconsistent_rows ==> findings(result.errors@) == e0,
                result.is_valid == (old(result).is_valid && (self.config.allow_inconsistent_rows || bad_row_findings(t, expected as nat, i as int).len() == 0)),
            decreases data.rows.len() - i,
        {
            let n = data.rows[i].len();
            assert(t[i as int].len() == n);
            let ghost eb = findings(result.errors@);
            let ghost wb = findings(result.warnings@);
            if n != expected {
                let e = ValidationError::InconsistentRowLength { row_index: i, expected, actual: n };
                if self.config.allow_inconsistent_rows {
                    add_warning_scored(result, e);
                    assert(findings(result.warnings@) =~= wb.push(e@));
                } else {
                    add_error_scored(result, e);
                    assert(findings(result.errors@) =~= eb.push(e@));
                }
            }
            i = i + 1;
        }
        let ghost eb = findings(result.errors@);
        if let Some(max_cols) = self.config.max_columns {
            if expected > max_cols {
                let e = ValidationError::ExcessiveColumnCount { count: expected, max_recommended: max_cols };
                add_error_scored(result, e);
                assert(findings(result.errors@) =~= eb.push(e@));
            }
        }
        let ghost eb2 = findings(result.errors@);
        if let Some(max_rows) = self.config.max_rows {
            if data.rows.len() > max_rows {
                let e = ValidationError::ExcessiveRowCount { count: data.rows.len(), max_recommended: max_rows };
                add_error_scored(result, e);
                assert(findings(result.errors@) =~= eb2.push(e@));
            }
        }
        assert(findings(result.errors@) =~= findings(old(result).errors@) + structure_error_findings(t, self.config));
    }
}

/// `add_error`, keeping the score in step with the numbers of findings.
fn add_error_scored(result: &mut ValidationResult, e: ValidationError)
    requires
        scored(*old(result)),
    ensures
        scored(*final(result)),
        !final(result).is_valid,
        final(result).errors@ == old(result).errors@.push(e),
        findings(final(result).errors@) == findings(old(result).errors@).push(e@),
        final(result).warnings@ == old(result).warnings@,
        final(result).info@ == old(result).info@,
{
    result.add_error(e);
    assert(findings(result.errors@) =~= findings(old(result).errors@).push(e@));
}

/// `add_warning`, keeping the score in step with the numbers of findings.
fn add_warning_scored(result: &mut ValidationResult, e: ValidationError)
    requires
        scored(*old(result)),
    ensures
        scored(*final(result)),
        final(result).is_valid == old(result).is_valid,
        final(result).errors@ == old(result).errors@,
        final(result).warnings@ == old(result).warnings@.push(e),
        findings(final(result).warnings@) == findings(old(result).warnings@).push(e@),
        final(result).info@ == old(result).info@,
{
    result.add_warning(e);
    assert(findings(result.warnings@) =~= findings(old(result).warnings@).push(e@));
}

/// `add_info`, keeping the score in step with the numbers of findings.
fn add_info_scored(result: &mut ValidationResult, e: ValidationError)
    requires
        scored(*old(result)),
    ensures
        scored(*final(result)),
        final(result).is_valid == old(result).is_valid,
        final(result).errors@ == old(result).errors@,
        final(result).warnings@ == old(result).warnings@,
        final(result).info@ == old(result).info@.push(e),
        findings(final(result).info@) == findings(old(result).info@).push(e@),
{
    result.add_info(e);
    assert(findings(result.info@) =~= findings(old(result).info@).push(e@));
}

/// Checks tables against a `ValidationConfig`.
pub struct TableValidator {
    pub config: ValidationConfig,
}

/// A finding about one cell.
fn cell_issue(row: usize, col: usize, issue: String) -> (res: ValidationError)
    ensures
        res == (ValidationError::InvalidCellContent { row, col, issue }),
        error_text(res) == cell_issue_text(row as nat, col as nat, issue@),
{
    ValidationError::InvalidCellContent { row, col, issue }
}

/// Whether a character is an emoji (see `is_emoji`).
fn char_is_emoji(c: char) -> (res: bool)
    ensures
        res == is_emoji(c),
{
    ('\u{1F600}' <= c && c <= '\u{1F64F}') || ('\u{1F300}' <= c && c <= '\u{1F5FF}') || (
    '\u{1F680}' <= c && c <= '\u{1F6FF}') || ('\u{1F1E6}' <= c && c <= '\u{1F1FF}')
}

/// Whether a character is a combining mark (see `is_combining`).
fn char_is_combining(c: char) -> (res: bool)
    ensures
        res == is_combining(c),
{
    ('\u{0300}' <= c && c <= '\u{036F}') || ('\u{1AB0}' <= c && c <= '\u{1AFF}') || (
    '\u{1DC0}' <= c && c <= '\u{1DFF}') || ('\u{20D0}' <= c && c <= '\u{20FF}') || ('\u{FE20}'
        <= c && c <= '\u{FE2F}')
}

impl TableValidator {
    /// Records the warnings and notes about one cell (see `cell_warning_findings` and
    /// `cell_info_findings`).
    fn validate_cell(&self, cell: &str, row: usize, col: usize, result: &mut ValidationResult)
        requires
            scored(*old(result)),
        ensures
            scored(*final(result)),
            final(result).is_valid == old(result).is_valid,
            final(result).errors@ == old(result).errors@,
            findings(final(result).warnings@) == findings(old(result).warnings@) + cell_warning_findings(cell@, row as nat, col as nat, self.config),
            findings(final(result).info@) == findings(old(result).info@) + cell_info_findings(cell@, row as nat, col as nat, self.config),
    {
        self.cell_warnings(cell, row, col, result);
        let ghost i0 = findings(result.info@);
        self.unicode_notes(cell, row, col, result);
        self.other_notes(cell, row, col, result);
        assert(findings(result.info@) =~= findings(old(result).info@) + cell_info_findings(cell@, row as nat, col as nat, self.config));
    }

    /// Records the warnings about one cell.
    fn cell_warnings(&self, cell: &str, row: usize, col: usize, result: &mut ValidationResult)
        requires
            scored(*old(result)),
        ensures
            scored(*final(result)),
            final(result).is_valid == old(result).is_valid,
            final(result).errors@ == old(result).errors@,
            findings(final(result).warnings@) == findings(old(result).warnings@) + cell_warning_findings(cell@, row as nat, col as nat, self.config),
            final(result).info@ == old(result).info@,
    {
        let ghost w0 = findings(result.warnings@);
        if str_is_empty(cell) && !self.config.allow_empty_cells {
            add_warning_scored(result, cell_issue(row, col, owned("Cell is empty")));
        }
        if let Some(max_len) = self.config.max_cell_length {
            let len = cell.as_bytes().len();
            if len > max_len {
                let a = with_number("Cell content is ", len, " characters (max: ");
                let b = with_number(a.as_str(), max_len, ")");
                add_warning_scored(result, cell_issue(row, col, b));
            }
        }
        assert(findings(result.warnings@) =~= w0 + cell_warning_findings(cell@, row as nat, col as nat, self.config));
    }

    /// Records the notes about wide, emoji and combining characters in one cell.
    fn unicode_notes(&self, cell: &str, row: usize, col: usize, result: &mut ValidationResult)
        requires
            scored(*old(result)),
        ensures
            scored(*final(result)),
            final(result).is_valid == old(result).is_valid,
            final(result).errors@ == old(result).errors@,
            final(result).warnings@ == old(result).warnings@,
            findings(final(result).info@) == findings(old(result).info@) + unicode_note_findings(cell@, row as nat, col as nat, self.config),
    {
        let ghost i0 = findings(result.info@);
        if self.config.check_unicode_issues {
            let v = crate::text::chars_of(cell);
            let mut wide = false;
            let mut emoji = false;
            let mut combining = false;
            let mut k: usize = 0;
            while k < v.len()
                invariant
                    k <= v.len(),
                    v@ == cell@,
                    wide == exists|j: int| 0 <= j < k && char_cols(#[trigger] v@[j]) > 1,
                    emoji == exists|j: int| 0 <= j < k && is_emoji(#[trigger] v@[j]),
                    combining == exists|j: int| 0 <= j < k && is_combining(#[trigger] v@[j]),
                decreases v.len() - k,
            {
                let c = v[k];
                if char_display_width(c) > 1 {
                    wide = true;
                }
                if char_is_emoji(c) {
                    emoji = true;
                }
                if char_is_combining(c) {
                    combining = true;
                }
                k = k + 1;
            }
            if wide {
                add_info_scored(result, cell_issue(row, col, owned("Cell contains wide Unicode characters - consider using Unicode-aware rendering")));
            }
            if emoji {
                add_info_scored(result, cell_issue(row, col, owned("Cell contains emoji characters - consider using emoji-aware rendering")));
            }
            if combining {
                add_info_scored(result, cell_issue(row, col, owned("Cell contains combining characters - width calculation may be affected")));
            }
        }
        assert(findings(result.info@) =~= i0 + unicode_note_findings(cell@, row as nat, col as nat, self.config));
    }

    /// Records the notes about escape sequences and whitespace in one cell.
    fn other_notes(&self, cell: &str, row: usize, col: usize, result: &mut ValidationResult)
        requires
            scored(*old(result)),
        ensures
            scored(*final(result)),
            final(result).is_valid == old(result).is_valid,
            final(result).errors@ == old(result).errors@,
            final(result).warnings@ == old(result).warnings@,
            findings(final(result).info@) == findings(old(result).info@) + other_note_findings(cell@, row as nat, col as nat, self.config),
    {
        let ghost i0 = findings(result.info@);
        if self.config.check_ansi_sequences && str_contains_char(cell, '\u{1b}') {
            add_info_scored(result, cell_issue(row, col, owned("Cell contains ANSI escape sequences - consider using ANSI-aware rendering")));
        }
        if self.config.check_whitespace_issues {
            if str_starts_with_char(cell, ' ') || str_ends_with_char(cell, ' ') {
                add_info_scored(result, cell_issue(row, col, owned("Cell has leading or trailing whitespace")));
            }
            if str_contains_char(cell, '\t') {
                add_info_scored(result, cell_issue(row, col, owned("Cell contains tab characters - may affect alignment")));
            }
            if str_contains_char(cell, '\n') {
                add_info_scored(result, cell_issue(row, col, owned("Cell contains newlines - consider using newline-aware rendering")));
            }
        }
        assert(findings(result.info@) =~= i0 + other_note_findings(cell@, row as nat, col as nat, self.config));
    }

    /// Records the warnings and notes about every cell, row by row.
    fn validate_content(&self, data: &TableData, result: &mut ValidationResult)
        requires
            scored(*old(result)),
        ensures
            scored(*final(result)),
            final(result).is_valid == old(result).is_valid,
            final(result).errors@ == old(result).errors@,
            findings(final(result).warnings@) == findings(old(result).warnings@) + content_warning_findings(table_view(data.rows@), self.config),
            findings(final(result).info@) == findings(old(result).info@) + content_info_findings(table_view(data.rows@), self.config),
    {
        let ghost t = table_view(data.rows@);
        let ghost wparts = Seq::new(t.len(), |r: int| Seq::new(t[r].len(), |c: int| cell_warning_findings(t[r][c], r as nat, c as nat, self.config)).flatten());
        let ghost iparts = Seq::new(t.len(), |r: int| Seq::new(t[r].len(), |c: int| cell_info_findings(t[r][c], r as nat, c as nat, self.config)).flatten());
        let ghost w0 = findings(result.warnings@);
        let ghost i0 = findings(result.info@);
        let mut r: usize = 0;
        while r < data.rows.len()
            invariant
                r <= data.rows.len(),
                t == table_view(data.rows@),
                wparts == Seq::new(t.len(), |q: int| Seq::new(t[q].len(), |c: int| cell_warning_findings(t[q][c], q as nat, c as nat, self.config)).flatten()),
                iparts == Seq::new(t.len(), |q: int| Seq::new(t[q].len(), |c: int| cell_info_findings(t[q][c], q as nat, c as nat, self.config)).flatten()),
                scored(*result),
                result.is_valid == old(result).is_valid,
                result.errors@ == old(result).errors@,
                findings(result.warnings@) == w0 + wparts.take(r as int).flatten(),
                findings(result.info@) == i0 + iparts.take(r as int).flatten(),
            decreases data.rows.len() - r,
        {
            let row = &data.rows[r];
            assert(t[r as int] == views(row@));
            let ghost wcells = Seq::new(t[r as int].len(), |c: int| cell_warning_findings(t[r as int][c], r as nat, c as nat, self.config));
            let ghost icells = Seq::new(t[r as int].len(), |c: int| cell_info_findings(t[r as int][c], r as nat, c as nat, self.config));
            let ghost wb = findings(result.warnings@);
            let ghost ib = findings(result.info@);
            let mut c: usize = 0;
            while c < row.len()
                invariant
                    c <= row.len(),
                    r < data.rows.len(),
                    row == &data.rows@[r as int],
                    t[r as int] == views(row@),
                    wcells == Seq::new(t[r as int].len(), |k: int| cell_warning_findings(t[r as int][k], r as nat, k as nat, self.config)),
                    icells == Seq::new(t[r as int].len(), |k: int| cell_info_findings(t[r as int][k], r as nat, k as nat, self.config)),
                    scored(*result),
                    result.is_valid == old(result).is_valid,
                    result.errors@ == old(result).errors@,
                    findings(result.warnings@) == wb + wcells.take(c as int).flatten(),
                    findings(result.info@) == ib + icells.take(c as int).flatten(),
                decreases row.len() - c,
            {
                assert(views(row@)[c as int] == row@[c as int]@);
                self.validate_cell(row[c].as_str(), r, c, result);
                proof {
                    assert(wcells.take(c + 1) =~= wcells.take(c as int).push(wcells[c as int]));
                    wcells.take(c as int).lemma_flatten_push(wcells[c as int]);
                    assert(icells.take(c + 1) =~= icells.take(c as int).push(icells[c as int]));
                    icells.take(c as int).lemma_flatten_push(icells[c as int]);
                }
                c = c + 1;
            }
            assert(wcells.take(c as int) =~= wcells);
            assert(icells.take(c as int) =~= icells);
            proof {
                assert(wparts.take(r + 1) =~= wparts.take(r as int).push(wparts[r as int]));
                wparts.take(r as int).lemma_flatten_push(wparts[r as int]);
                assert(iparts.take(r + 1) =~= iparts.take(r as int).push(iparts[r as int]));
                iparts.take(r as int).lemma_flatten_push(iparts[r as int]);
            }
            r = r + 1;
        }
        assert(wparts.take(r as int) =~= wparts);
        assert(iparts.take(r as int) =~= iparts);
    }
}

/// The bytes of the first `n` cells of a row.
pub open spec fn row_bytes(row: Seq<Seq<char>>, n: int) -> nat
    decreases n,
{
    if n <= 0 {
        0
    } else {
        row_bytes(row, n - 1) + byte_len(row[n - 1])
    }
}

/// The bytes of all cells of the first `n` rows.
pub open spec fn table_bytes(t: Seq<Seq<Seq<char>>>, n: int) -> nat
    decreases n,
{
    if n <= 0 {
        0
    } else {
        table_bytes(t, n - 1) + row_bytes(t[n - 1], t[n - 1].len() as int)
    }
}

/// The memory a table is estimated to take: twice its bytes and 64 per cell of its grid.
pub open spec fn memory_estimate(t: Seq<Seq<Seq<char>>>) -> nat {
    2 * table_bytes(t, t.len() as int) + t.len() * column_count_of(t) * 64
}

/// The number of the first `n` cells of a row longer (in bytes) than `m`.
pub open spec fn row_large(row: Seq<Seq<char>>, m: nat, n: int) -> nat
    decreases n,
{
    if n <= 0 {
        0
    } else {
        row_large(row, m, n - 1) + if byte_len(row[n - 1]) > m { 1nat } else { 0nat }
    }
}

/// The number of cells of the first `n` rows longer (in bytes) than `m`.
pub open spec fn table_large(t: Seq<Seq<Seq<char>>>, m: nat, n: int) -> nat
    decreases n,
{
    if n <= 0 {
        0
    } else {
        table_large(t, m, n - 1) + row_large(t[n - 1], m, t[n - 1].len() as int)
    }
}

/// The performance warnings about a table.
pub open spec fn perf_warning_findings(t: Seq<Seq<Seq<char>>>, cfg: ValidationConfig) -> Seq<Finding> {
    let th = cfg.performance_thresholds;
    let large = table_large(t, th.very_large_cell_chars as nat, t.len() as int);
    note_if(t.len() > th.large_table_rows, Finding::PerformanceWarning { issue: "Large table with "@ + decimal(t.len()) + " rows"@, recommendation: "Consider using streaming API or pagination"@ })
    + note_if(column_count_of(t) > th.large_table_columns, Finding::PerformanceWarning { issue: "Wide table with "@ + decimal(column_count_of(t)) + " columns"@, recommendation: "Consider splitting into multiple tables or using horizontal scrolling"@ })
    + note_if(large > 0, Finding::PerformanceWarning { issue: decimal(large) + " cells with more than "@ + decimal(th.very_large_cell_chars as nat) + " characters"@, recommendation: "Consider truncating long content or using wrapping"@ })
    + note_if(memory_estimate(t) > 10_000_000, Finding::PerformanceWarning { issue: "Estimated memory usage: "@ + decimal(memory_estimate(t)) + " bytes"@, recommendation: "Consider processing in chunks or using streaming"@ })
}

/// The first row before row `i`, from `j` on, equal to row `i`.
pub open spec fn first_equal_from(t: Seq<Seq<Seq<char>>>, i: int, j: int) -> Option<nat>
    decreases i - j,
{
    if j < 0 || j >= i {
        None
    } else if t[j] == t[i] {
        Some(j as nat)
    } else {
        first_equal_from(t, i, j + 1)
    }
}

/// The notes about repeated rows among the first `n` rows.
pub open spec fn duplicate_findings(t: Seq<Seq<Seq<char>>>, n: int) -> Seq<Finding>
    decreases n,
{
    if n <= 0 {
        Seq::empty()
    } else {
        duplicate_findings(t, n - 1) + match first_equal_from(t, n - 1, 0) {
            Some(j) => seq![Finding::DataIntegrityIssue { issue: "Row "@ + decimal((n - 1) as nat) + " appears to be duplicate of row "@ + decimal(j) }],
            None => Seq::empty(),
        }
    }
}

/// Cell `c` of a row, if it has one.
pub open spec fn opt_cell(row: Seq<Seq<char>>, c: int) -> Option<Seq<char>> {
    if 0 <= c < row.len() {
        Some(row[c])
    } else {
        None
    }
}

/// Whether column `c` holds the first row's value in every row.
pub open spec fn uniform_column(t: Seq<Seq<Seq<char>>>, c: int) -> bool {
    forall|r: int| 1 <= r < t.len() ==> opt_cell(#[trigger] t[r], c) == opt_cell(t[0], c)
}

/// The number of uniform columns among the first `n`.
pub open spec fn uniform_count(t: Seq<Seq<Seq<char>>>, n: int) -> nat
    decreases n,
{
    if n <= 0 {
        0
    } else {
        uniform_count(t, n - 1) + if uniform_column(t, n - 1) { 1nat } else { 0nat }
    }
}

/// The notes about the data's integrity: repeated rows, and (for more than five rows) more
/// than half of the columns uniform.
pub open spec fn integrity_findings(t: Seq<Seq<Seq<char>>>) -> Seq<Finding> {
    duplicate_findings(t, t.len() as int) + note_if(t.len() > 5 && uniform_count(t, column_count_of(t) as int) > column_count_of(t) / 2, Finding::DataIntegrityIssue { issue: "Many columns have identical values in all rows"@ })
}

/// Whether two rows hold the same cells.
fn rows_equal(a: &Vec<String>, b: &Vec<String>) -> (res: bool)
    ensures
        res == (views(a@) == views(b@)),
{
    if a.len() != b.len() {
        return false;
    }
    let mut k: usize = 0;
    while k < a.len()
        invariant
            k <= a.len() == b.len(),
            forall|m: int| 0 <= m < k ==> views(a@)[m] == views(b@)[m],
        decreases a.len() - k,
    {
        if !crate::text::str_eq(a[k].as_str(), b[k].as_str()) {
            assert(views(a@)[k as int] != views(b@)[k as int]);
            return false;
        }
        k = k + 1;
    }
    assert(views(a@) =~= views(b@));
    true
}

impl TableValidator {
    /// Records the performance warnings (see `perf_warning_findings`).
    fn analyze_performance(&self, data: &TableData, result: &mut ValidationResult)
        requires
            scored(*old(result)),
            memory_estimate(table_view(data.rows@)) <= usize::MAX,
        ensures
            scored(*final(result)),
            final(result).is_valid == old(result).is_valid,
            final(result).errors@ == old(result).errors@,
            findings(final(result).warnings@) == findings(old(result).warnings@) + perf_warning_findings(table_view(data.rows@), self.config),
            final(result).info@ == old(result).info@,
    {
        let ghost t = table_view(data.rows@);
        let ghost w0 = findings(result.warnings@);
        let th = self.config.performance_thresholds;
        let rows = data.row_count();
        let cols = data.column_count();
        if rows > th.large_table_rows {
            let a = with_number("Large table with ", rows, " rows");
            add_warning_scored(result, ValidationError::PerformanceWarning { issue: a, recommendation: owned("Consider using streaming API or pagination") });
        }
        if cols > th.large_table_columns {
            let a = with_number("Wide table with ", cols, " columns");
            add_warning_scored(result, ValidationError::PerformanceWarning { issue: a, recommendation: owned("Consider splitting into multiple tables or using horizontal scrolling") });
        }
        let (large, bytes) = self.count_cells(data);
        if large > 0 {
            let a = with_number("", large, " cells with more than ");
            let b = with_number(a.as_str(), th.very_large_cell_chars, " characters");
            proof {
                reveal_strlit("");
                assert(""@ + decimal(large as nat) =~= decimal(large as nat));
            }
            add_warning_scored(result, ValidationError::PerformanceWarning { issue: b, recommendation: owned("Consider truncating long content or using wrapping") });
        }
        proof {
            assert(t.len() * column_count_of(t) * 64 <= memory_estimate(t));
        }
        let grid: usize = rows * cols * 64;
        let memory: usize = bytes * 2 + grid;
        if memory > 10_000_000 {
            let a = with_number("Estimated memory usage: ", memory, " bytes");
            add_warning_scored(result, ValidationError::PerformanceWarning { issue: a, recommendation: owned("Consider processing in chunks or using streaming") });
        }
        assert(findings(result.warnings@) =~= w0 + perf_warning_findings(t, self.config));
    }

    /// The number of cells longer than the threshold, and the bytes of all cells.
    fn count_cells(&self, data: &TableData) -> (res: (usize, usize))
        requires
            memory_estimate(table_view(data.rows@)) <= usize::MAX,
        ensures
            res.0 == table_large(table_view(data.rows@), self.config.performance_thresholds.very_large_cell_chars as nat, data.rows@.len() as int),
            res.1 == table_bytes(table_view(data.rows@), data.rows@.len() as int),
    {
        let ghost t = table_view(data.rows@);
        let m = self.config.performance_thresholds.very_large_cell_chars;
        let mut large: usize = 0;
        let mut bytes: usize = 0;
        let mut r: usize = 0;
        while r < data.rows.len()
            invariant
                r <= data.rows.len(),
                t == table_view(data.rows@),
                memory_estimate(t) <= usize::MAX,
                large == table_large(t, m as nat, r as int),
                large <= bytes,
                bytes == table_bytes(t, r as int),
                r <= t.len(),
            decreases data.rows.len() - r,
        {
            let row = &data.rows[r];
            assert(t[r as int] == views(row@));
            proof {
                lemma_table_bytes_mono(t, r + 1, t.len() as int);
            }
            let mut c: usize = 0;
            let mut rl: usize = 0;
            let mut rb: usize = 0;
            while c < row.len()
                invariant
                    c <= row.len(),
                    r < data.rows.len(),
                    row == &data.rows@[r as int],
                    t == table_view(data.rows@),
                    t[r as int] == views(row@),
                    memory_estimate(t) <= usize::MAX,
                    bytes == table_bytes(t, r as int),
                    table_bytes(t, r + 1) <= table_bytes(t, t.len() as int),
                    rl == row_large(views(row@), m as nat, c as int),
                    rb == row_bytes(views(row@), c as int),
                    rl <= rb,
                    rb <= row_bytes(views(row@), row@.len() as int),
                decreases row.len() - c,
            {
                proof {
                    lemma_row_bytes_mono(views(row@), c + 1, row@.len() as int);
                }
                let b = row[c].as_str().as_bytes().len();
                assert(views(row@)[c as int] == row@[c as int]@);
                if b > m {
                    rl = rl + 1;
                }
                rb = rb + b;
                c = c + 1;
            }
            large = large + rl;
            bytes = bytes + rb;
            r = r + 1;
        }
        (large, bytes)
    }
}

pub(crate) proof fn lemma_row_bytes_mono(row: Seq<Seq<char>>, a: int, b: int)
    requires
        a <= b,
    ensures
        row_bytes(row, a) <= row_bytes(row, b),
    decreases b - a,
{
    if a < b {
        lemma_row_bytes_mono(row, a, b - 1);
    }
}

pub(crate) proof fn lemma_table_bytes_mono(t: Seq<Seq<Seq<char>>>, a: int, b: int)
    requires
        a <= b,
    ensures
        table_bytes(t, a) <= table_bytes(t, b),
    decreases b - a,
{
    if a < b {
        lemma_table_bytes_mono(t, a, b - 1);
    }
}

/// The errors `validate` records.
pub open spec fn validate_error_findings(t: Seq<Seq<Seq<char>>>, cfg: ValidationConfig) -> Seq<Finding> {
    structure_error_findings(t, cfg)
}

/// The warnings `validate` records.
pub open spec fn validate_warning_findings(t: Seq<Seq<Seq<char>>>, cfg: ValidationConfig) -> Seq<Finding> {
    structure_warning_findings(t, cfg) + content_warning_findings(t, cfg) + perf_warning_findings(t, cfg)
}

/// The notes `validate` records.
pub open spec fn validate_info_findings(t: Seq<Seq<Seq<char>>>, cfg: ValidationConfig) -> Seq<Finding> {
    content_info_findings(t, cfg) + integrity_findings(t)
}

/// Whether `r` is what validating `t` with `cfg` gives: the errors, warnings and notes
/// above, valid exactly when there are no errors, and the score they give.
pub open spec fn validated(r: ValidationResult, t: Seq<Seq<Seq<char>>>, cfg: ValidationConfig) -> bool {
    &&& findings(r.errors@) == validate_error_findings(t, cfg)
    &&& findings(r.warnings@) == validate_warning_findings(t, cfg)
    &&& findings(r.info@) == validate_info_findings(t, cfg)
    &&& r.is_valid == (validate_error_findings(t, cfg).len() == 0)
    &&& scored(r)
}

/// What validating gives: valid exactly when no error was found, the score from the numbers
/// of errors and warnings, and for a table without rows the empty-table error alone.
pub proof fn law_validation_result(r: ValidationResult, t: Seq<Seq<Seq<char>>>, cfg: ValidationConfig)
    requires
        validated(r, t, cfg),
    ensures
        r.is_valid == (r.errors@.len() == 0),
        r.performance_score == score_of(r.errors@.len(), r.warnings@.len()),
        t.len() == 0 ==> r.errors@.len() == 1 && r.errors@[0]@ == Finding::EmptyTable,
{
    assert(findings(r.errors@).len() == r.errors@.len());
    if t.len() == 0 {
        assert(findings(r.errors@)[0] == r.errors@[0]@);
    }
}

impl TableValidator {
    /// Records the notes about the data's integrity (see `integrity_findings`).
    fn check_data_integrity(&self, data: &TableData, result: &mut ValidationResult)
        requires
            scored(*old(result)),
        ensures
            scored(*final(result)),
            final(result).is_valid == old(result).is_valid,
            final(result).errors@ == old(result).errors@,
            final(result).warnings@ == old(result).warnings@,
            findings(final(result).info@) == findings(old(result).info@) + integrity_findings(table_view(data.rows@)),
    {
        let ghost t = table_view(data.rows@);
        let ghost i0 = findings(result.info@);
        let mut i: usize = 0;
        while i < data.rows.len()
            invariant
                i <= data.rows.len(),
                t == table_view(data.rows@),
                scored(*result),
                result.is_valid == old(result).is_valid,
                result.errors@ == old(result).errors@,
                result.warnings@ == old(result).warnings@,
                findings(result.info@) == i0 + duplicate_findings(t, i as int),
            decreases data.rows.len() - i,
        {
            assert(t[i as int] == views(data.rows@[i as int]@));
            let mut j: usize = 0;
            let mut found: Option<usize> = None;
            while j < i
                invariant_except_break
                    j <= i,
                    found is None,
                    first_equal_from(t, i as int, j as int) == first_equal_from(t, i as int, 0),
                invariant
                    i < data.rows.len(),
                    t == table_view(data.rows@),
                ensures
                    match found {
                        Some(k) => first_equal_from(t, i as int, 0) == Some(k as nat),
                        None => first_equal_from(t, i as int, 0) is None,
                    },
                decreases i - j,
            {
                assert(t[j as int] == views(data.rows@[j as int]@));
                assert(t[i as int] == views(data.rows@[i as int]@));
                if rows_equal(&data.rows[j], &data.rows[i]) {
                    found = Some(j);
                    break;
                }
                j = j + 1;
            }
            let ghost ib = findings(result.info@);
            if let Some(k) = found {
                let a = with_number("Row ", i, " appears to be duplicate of row ");
                let b = with_number(a.as_str(), k, "");
                proof {
                    reveal_strlit("");
                    assert(b@ =~= "Row "@ + decimal(i as nat) + " appears to be duplicate of row "@ + decimal(k as nat));
                }
                add_info_scored(result, ValidationError::DataIntegrityIssue { issue: b });
            }
            assert(findings(result.info@) =~~= i0 + duplicate_findings(t, i + 1));
            i = i + 1;
        }
        let ghost ib = findings(result.info@);
        if data.rows.len() > 5 {
            let cols = data.column_count();
            let mut uniform: usize = 0;
            let mut c: usize = 0;
            while c < cols
                invariant
                    c <= cols,
                    cols == column_count_of(t),
                    t == table_view(data.rows@),
                    data.rows@.len() > 5,
                    uniform == uniform_count(t, c as int),
                    uniform <= c,
                decreases cols - c,
            {
                let mut all_same = true;
                let mut r: usize = 1;
                while r < data.rows.len()
                    invariant
                        1 <= r <= data.rows.len(),
                        t == table_view(data.rows@),
                        data.rows@.len() > 5,
                        all_same == forall|q: int| 1 <= q < r ==> opt_cell(#[trigger] t[q], c as int) == opt_cell(t[0], c as int),
                    decreases data.rows.len() - r,
                {
                    let row = &data.rows[r];
                    let first = &data.rows[0];
                    assert(t[r as int] == views(row@));
                    assert(t[0] == views(first@));
                    let same = if c < row.len() && c < first.len() {
                        assert(views(row@)[c as int] == row@[c as int]@);
                        assert(views(first@)[c as int] == first@[c as int]@);
                        crate::text::str_eq(row[c].as_str(), first[c].as_str())
                    } else {
                        c >= row.len() && c >= first.len()
                    };
                    if !same {
                        all_same = false;
                    }
                    r = r + 1;
                }
                if all_same {
                    uniform = uniform + 1;
                }
                c = c + 1;
            }
            if uniform > cols / 2 {
                add_info_scored(result, ValidationError::DataIntegrityIssue { issue: owned("Many columns have identical values in all rows") });
            }
        }
        assert(findings(result.info@) =~= i0 + integrity_findings(t));
    }

    /// Validates a table: its shape, its cells, its size and its data's integrity (see
    /// `validated`).
    pub fn validate(&self, data: &TableData) -> (res: ValidationResult)
        requires
            memory_estimate(table_view(data.rows@)) <= usize::MAX,
        ensures
            validated(res, table_view(data.rows@), self.config),
    {
        let mut result = ValidationResult::new();
        assert(findings(result.errors@) =~= Seq::<Finding>::empty());
        assert(findings(result.warnings@) =~= Seq::<Finding>::empty());
        assert(findings(result.info@) =~= Seq::<Finding>::empty());
        self.validate_structure(data, &mut result);
        self.validate_content(data, &mut result);
        self.analyze_performance(data, &mut result);
        self.check_data_integrity(data, &mut result);
        let ghost t = table_view(data.rows@);
        assert(findings(result.errors@) =~= validate_error_findings(t, self.config));
        assert(findings(result.warnings@) =~= validate_warning_findings(t, self.config));
        assert(findings(result.info@) =~= validate_info_findings(t, self.config));
        assert(result.errors@.len() == findings(result.errors@).len());
        result
    }

    /// Validates a table and its column settings: after `validate`, a warning when the number
    /// of settings differs from the number of columns, and one for each width above 100.
    pub fn validate_with_config(&self, data: &TableData, column_configs: &[ColumnConfig]) -> (res: ValidationResult)
        requires
            memory_estimate(table_view(data.rows@)) <= usize::MAX,
        ensures
            findings(res.errors@) == validate_error_findings(table_view(data.rows@), self.config),
            findings(res.warnings@) == validate_warning_findings(table_view(data.rows@), self.config) + config_warning_findings(table_view(data.rows@), column_configs@),
            findings(res.info@) == validate_info_findings(table_view(data.rows@), self.config),
            res.is_valid == (validate_error_findings(table_view(data.rows@), self.config).len() == 0),
            scored(res),
    {
        let mut result = self.validate(data);
        let ghost w0 = findings(result.warnings@);
        let ghost t = table_view(data.rows@);
        if !data.is_empty() && column_configs.len() != data.column_count() {
            let a = with_number("Column configuration count (", column_configs.len(), ") doesn't match table columns (");
            let b = with_number(a.as_str(), data.column_count(), ")");
            add_warning_scored(&mut result, ValidationError::ConfigurationIssue { issue: b });
        }
        let ghost w1 = findings(result.warnings@);
        let mut i: usize = 0;
        while i < column_configs.len()
            invariant
                i <= column_configs.len(),
                scored(result),
                findings(result.warnings@) == w1 + wide_config_findings(column_configs@, i as int),
                result.is_valid == (validate_error_findings(t, self.config).len() == 0),
                findings(result.errors@) == validate_error_findings(t, self.config),
                findings(result.info@) == validate_info_findings(t, self.config),
            decreases column_configs.len() - i,
        {
            let ghost wb = findings(result.warnings@);
            if let Some(width) = column_configs[i].width {
                if width > 100 {
                    let a = with_number("Column ", i, " has very large width (");
                    let b = with_number(a.as_str(), width, "), may cause rendering issues");
                    add_warning_scored(&mut result, ValidationError::ConfigurationIssue { issue: b });
                }
            }
            assert(findings(result.warnings@) =~~= w1 + wide_config_findings(column_configs@, i + 1));
            i = i + 1;
        }
        assert(findings(result.warnings@) =~~= validate_warning_findings(t, self.config) + config_warning_findings(t, column_configs@));
        result
    }
}

/// The warnings about each of the first `n` column settings whose width is above 100.
pub open spec fn wide_config_findings(cfgs: Seq<ColumnConfig>, n: int) -> Seq<Finding>
    decreases n,
{
    if n <= 0 {
        Seq::empty()
    } else {
        wide_config_findings(cfgs, n - 1) + match cfgs[n - 1].width {
            Some(w) => note_if(w > 100, Finding::ConfigurationIssue { issue: "Column "@ + decimal((n - 1) as nat) + " has very large width ("@ + decimal(w as nat) + "), may cause rendering issues"@ }),
            None => Seq::empty(),
        }
    }
}

/// The warnings about column settings that `validate_with_config` adds.
pub open spec fn config_warning_findings(t: Seq<Seq<Seq<char>>>, cfgs: Seq<ColumnConfig>) -> Seq<Finding> {
    note_if(t.len() > 0 && cfgs.len() != column_count_of(t), Finding::ConfigurationIssue { issue: "Column configuration count ("@ + decimal(cfgs.len()) + ") doesn't match table columns ("@ + decimal(column_count_of(t)) + ")"@ })
        + wide_config_findings(cfgs, cfgs.len() as int)
}

/// Validates a table with the default settings.
pub fn validate_table(data: &TableData) -> (res: ValidationResult)
    requires
        memory_estimate(table_view(data.rows@)) <= usize::MAX,
    ensures
        validated(res, table_view(data.rows@), default_validation()),
{
    TableValidator::new(ValidationConfig::default()).validate(data)
}

/// Validates a table with the strict settings.
pub fn validate_table_strict(data: &TableData) -> (res: ValidationResult)
    requires
        memory_estimate(table_view(data.rows@)) <= usize::MAX,
    ensures
        validated(res, table_view(data.rows@), strict_validation()),
{
    let c = ValidationConfig::strict();
    TableValidator::new(c).validate(data)
}

/// Validates a table with the settings for web pages.
pub fn validate_table_for_web(data: &TableData) -> (res: ValidationResult)
    requires
        memory_estimate(table_view(data.rows@)) <= usize::MAX,
    ensures
        validated(res, table_view(data.rows@), web_validation()),
{
    let c = ValidationConfig::web_optimized();
    TableValidator::new(c).validate(data)
}

/// Whether a table passes validation with the default settings.
pub fn is_table_valid(data: &TableData) -> (res: bool)
    requires
        memory_estimate(table_view(data.rows@)) <= usize::MAX,
    ensures
        res == (validate_error_findings(table_view(data.rows@), default_validation()).len() == 0),
{
    validate_table(data).is_valid
}

/// A one-line summary of validating a table with the default settings.
pub fn validation_summary(data: &TableData) -> (res: String)
    requires
        memory_estimate(table_view(data.rows@)) <= usize::MAX,
    ensures
        exists|r: ValidationResult| validated(r, table_view(data.rows@), default_validation()) && res@ == summary_text(r, data.rows@.len(), column_count_of(table_view(data.rows@))),
{
    let result = validate_table(data);
    let s = if result.is_valid && !result.has_issues() {
        let a = with_number("✅ Valid table (", data.row_count(), " rows, ");
        let b = with_number(a.as_str(), data.column_count(), " cols, score: ");
        with_number(b.as_str(), result.performance_score as usize, "/100)")
    } else {
        let a = with_number("⚠️  Issues found: ", result.error_count(), " errors, ");
        let b = with_number(a.as_str(), result.warning_count(), " warnings (score: ");
        with_number(b.as_str(), result.performance_score as usize, "/100)")
    };
    assert(validated(result, table_view(data.rows@), default_validation()));
    s
}

/// The summary line for a validation result of a table with `rows` rows and `cols` columns.
pub open spec fn summary_text(r: ValidationResult, rows: nat, cols: nat) -> Seq<char> {
    if r.is_valid && r.errors@.len() == 0 && r.warnings@.len() == 0 {
        "✅ Valid table ("@ + decimal(rows) + " rows, "@ + decimal(cols) + " cols, score: "@ + decimal(r.performance_score as nat) + "/100)"@
    } else {
        "⚠️  Issues found: "@ + decimal(r.errors@.len()) + " errors, "@ + decimal(r.warnings@.len()) + " warnings (score: "@ + decimal(r.performance_score as nat) + "/100)"@
    }
}

} // verus!
