use ascii_ansi_table::features::spanning::{
    are_cells_equal, calculate_range_coordinate, is_cell_in_range, SpanningCellManager,
};
use ascii_ansi_table::types::{CellCoordinates, ColumnConfig, RangeCoordinate, SpanningCellConfig};

fn two_by_two_at_origin() -> SpanningCellConfig {
    SpanningCellConfig {
        col: 0,
        row: 0,
        col_span: Some(2),
        row_span: Some(2),
        alignment: None,
        vertical_alignment: None,
        padding_left: None,
        padding_right: None,
        truncate: None,
        wrap_word: None,
    }
}

#[test]
fn test_spanning_cell_manager_creation() {
    let configs = vec![two_by_two_at_origin()];
    let columns = vec![ColumnConfig::default(); 3];
    let manager = SpanningCellManager::new(&configs, &columns);
    let ranges = manager.get_range_config_table();
    assert_eq!(ranges.len(), 1);
    assert_eq!(ranges[0].top_left.col, 0);
    assert_eq!(ranges[0].top_left.row, 0);
    assert_eq!(ranges[0].bottom_right.col, 1);
    assert_eq!(ranges[0].bottom_right.row, 1);
}

#[test]
fn test_get_containing_range() {
    let configs = vec![two_by_two_at_origin()];
    let columns = vec![ColumnConfig::default(); 3];
    let manager = SpanningCellManager::new(&configs, &columns);
    let cell_in_range = CellCoordinates { col: 1, row: 1 };
    let cell_out_of_range = CellCoordinates { col: 2, row: 2 };
    assert!(manager.get_containing_range(&cell_in_range).is_some());
    assert!(manager.get_containing_range(&cell_out_of_range).is_none());
}

#[test]
fn test_in_same_range() {
    let configs = vec![two_by_two_at_origin()];
    let columns = vec![ColumnConfig::default(); 3];
    let manager = SpanningCellManager::new(&configs, &columns);
    let cell1 = CellCoordinates { col: 0, row: 0 };
    let cell2 = CellCoordinates { col: 1, row: 1 };
    let cell3 = CellCoordinates { col: 2, row: 2 };
    assert!(manager.in_same_range(&cell1, &cell2));
    assert!(!manager.in_same_range(&cell1, &cell3));
}

#[test]
fn test_should_render_cell() {
    let configs = vec![two_by_two_at_origin()];
    let columns = vec![ColumnConfig::default(); 3];
    let manager = SpanningCellManager::new(&configs, &columns);
    let origin_cell = CellCoordinates { col: 0, row: 0 };
    let spanned_cell = CellCoordinates { col: 1, row: 1 };
    let normal_cell = CellCoordinates { col: 2, row: 2 };
    assert!(manager.should_render_cell(&origin_cell));
    assert!(!manager.should_render_cell(&spanned_cell));
    assert!(manager.should_render_cell(&normal_cell));
}

#[test]
fn test_calculate_range_coordinate() {
    let config = SpanningCellConfig { col: 1, row: 2, col_span: Some(3), row_span: Some(2), ..two_by_two_at_origin() };
    let range = calculate_range_coordinate(&config);
    assert_eq!(range.top_left.col, 1);
    assert_eq!(range.top_left.row, 2);
    assert_eq!(range.bottom_right.col, 3);
    assert_eq!(range.bottom_right.row, 3);
}

#[test]
fn test_are_cells_equal() {
    let cell1 = CellCoordinates { col: 1, row: 2 };
    let cell2 = CellCoordinates { col: 1, row: 2 };
    let cell3 = CellCoordinates { col: 2, row: 1 };
    assert!(are_cells_equal(&cell1, &cell2));
    assert!(!are_cells_equal(&cell1, &cell3));
}

#[test]
fn test_is_cell_in_range() {
    let range = RangeCoordinate {
        top_left: CellCoordinates { col: 1, row: 1 },
        bottom_right: CellCoordinates { col: 3, row: 3 },
    };
    let cell_in_range = CellCoordinates { col: 2, row: 2 };
    let cell_out_of_range = CellCoordinates { col: 0, row: 0 };
    assert!(is_cell_in_range(&cell_in_range, &range));
    assert!(!is_cell_in_range(&cell_out_of_range, &range));
}

#[test]
fn span_info_reports_the_range_size_and_content_comes_from_the_corner() {
    let configs = vec![two_by_two_at_origin()];
    let manager = SpanningCellManager::new(&configs, &[]);
    let info = manager.get_cell_span_info(&CellCoordinates { col: 1, row: 0 });
    assert!(info.is_spanning && !info.is_origin);
    assert_eq!((info.col_span, info.row_span), (2, 2));
    let data = vec![vec!["X".to_string(), "Y".to_string()]];
    assert_eq!(manager.extract_spanning_cell_content(&CellCoordinates { col: 0, row: 0 }, &data), Some("X".to_string()));
    assert_eq!(manager.extract_spanning_cell_content(&CellCoordinates { col: 1, row: 0 }, &data), None);
    assert_eq!(manager.get_span_origin(&CellCoordinates { col: 1, row: 1 }), Some(CellCoordinates { col: 0, row: 0 }));
}
