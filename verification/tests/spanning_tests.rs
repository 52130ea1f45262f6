use ascii_ansi_table::spanning::{
    calculate_spanned_width, should_render_cell, CellSpan, SpannedCell, SpannedTableData,
};
use ascii_ansi_table::table_data::TableData;

#[test]
fn test_cell_span_creation() {
    let span = CellSpan::new(2, 3);
    assert_eq!(span.row_span, 2);
    assert_eq!(span.col_span, 3);
    assert!(span.is_spanning());
    let single = CellSpan::single();
    assert_eq!(single.row_span, 1);
    assert_eq!(single.col_span, 1);
    assert!(!single.is_spanning());
}

#[test]
fn test_span_helpers() {
    let h_span = CellSpan::horizontal(3);
    assert_eq!(h_span.row_span, 1);
    assert_eq!(h_span.col_span, 3);
    let v_span = CellSpan::vertical(2);
    assert_eq!(v_span.row_span, 2);
    assert_eq!(v_span.col_span, 1);
}

#[test]
fn test_spanned_cell_creation() {
    let cell = SpannedCell::new("Test".to_string());
    assert_eq!(cell.content, "Test");
    assert!(!cell.is_continuation);
    let continuation = SpannedCell::continuation();
    assert_eq!(continuation.content, "");
    assert!(continuation.is_continuation);
}

#[test]
fn test_spanned_table_data_creation() {
    let mut table = SpannedTableData::new(3, 4);
    assert_eq!(table.rows, 3);
    assert_eq!(table.cols, 4);
    assert!(!table.is_empty());
    let cell = SpannedCell::with_span("Spanning".to_string(), CellSpan::new(2, 2));
    assert!(table.set_cell(0, 0, cell).is_ok());
    assert!(table.get_cell(0, 1).unwrap().is_continuation);
    assert!(table.get_cell(1, 0).unwrap().is_continuation);
    assert!(table.get_cell(1, 1).unwrap().is_continuation);
}

#[test]
fn test_from_regular_table() {
    let data = TableData::new(vec![
        vec!["A".to_string(), "B".to_string()],
        vec!["C".to_string(), "D".to_string()],
    ]);
    let spanned = SpannedTableData::from_regular_table(&data);
    assert_eq!(spanned.rows, 2);
    assert_eq!(spanned.cols, 2);
    assert_eq!(spanned.get_cell(0, 0).unwrap().content, "A");
    assert_eq!(spanned.get_cell(1, 1).unwrap().content, "D");
}

#[test]
fn test_span_bounds_checking() {
    let mut table = SpannedTableData::new(2, 2);
    let cell = SpannedCell::new("Test".to_string());
    assert!(table.set_cell(3, 0, cell).is_err());
    let spanning_cell = SpannedCell::with_span("Span".to_string(), CellSpan::new(2, 3));
    assert!(table.set_cell(0, 0, spanning_cell).is_err());
}

#[test]
fn test_calculate_spanned_width() {
    let column_widths = vec![10, 15, 12, 8];
    let width = calculate_spanned_width(&column_widths, 0, 1, 1);
    assert_eq!(width, 10);
    let width = calculate_spanned_width(&column_widths, 0, 2, 1);
    assert_eq!(width, 26);
    let width = calculate_spanned_width(&column_widths, 1, 3, 1);
    assert_eq!(width, 37);
}

#[test]
fn spanning_test_should_render_cell() {
    let regular_cell = SpannedCell::new("Test".to_string());
    assert!(should_render_cell(&regular_cell));
    let continuation_cell = SpannedCell::continuation();
    assert!(!should_render_cell(&continuation_cell));
}

#[test]
fn test_zero_span_protection() {
    let span = CellSpan::new(0, 0);
    assert_eq!(span.row_span, 1);
    assert_eq!(span.col_span, 1);
    assert!(!span.is_spanning());
}

#[test]
fn set_cell_errors_name_the_place() {
    let mut table = SpannedTableData::new(2, 2);
    assert_eq!(table.set_cell(2, 5, SpannedCell::new("x".to_string())).unwrap_err(), "Cell position (2, 5) is out of bounds");
    assert_eq!(
        table.set_cell(1, 1, SpannedCell::with_span("x".to_string(), CellSpan::horizontal(2))).unwrap_err(),
        "Cell span exceeds table bounds"
    );
    assert!(table.get_cell(2, 0).is_none());
}
