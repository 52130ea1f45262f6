use ascii_ansi_table::pipeline::calculator::{
    calculate_output_column_widths, calculate_row_heights, map_data_using_row_heights,
};
use ascii_ansi_table::pipeline::processor::{align_cell, align_column_vertically, pad_cell, truncate_cell};
use ascii_ansi_table::pipeline::renderer::{draw_border_line, draw_row, draw_table, BorderType};
use ascii_ansi_table::pipeline::validator::{
    spanning_cells_overlap, validate_column_config, validate_spanning_cell_config,
};
use ascii_ansi_table::types::{
    Alignment, BorderConfig, ColumnConfig, SpanningCellConfig, TableConfig, VerticalAlignment,
};

#[test]
fn test_calculate_output_column_widths() {
    let rows = vec![
        vec!["short".to_string(), "longer text".to_string()],
        vec!["a".to_string(), "b".to_string()],
    ];
    let config = TableConfig::default();
    let widths = calculate_output_column_widths(&rows, &config);
    assert_eq!(widths, vec![7, 13]);
}

#[test]
fn test_calculate_row_heights() {
    let rows = vec![
        vec!["line1\nline2".to_string(), "single".to_string()],
        vec!["short".to_string(), "also short".to_string()],
    ];
    let config = TableConfig::default();
    let heights = calculate_row_heights(&rows, &config);
    assert_eq!(heights.len(), 2);
    assert!(heights[0] >= 2);
    assert!(heights[1] >= 1);
}

#[test]
fn test_map_data_using_row_heights() {
    let rows = vec![vec!["line1\nline2".to_string(), "single".to_string()]];
    let config = TableConfig::default();
    let row_heights = vec![2];
    let mapped = map_data_using_row_heights(&rows, &row_heights, &config);
    println!("Mapped: {mapped:?}");
    assert_eq!(mapped.len(), 1);
    assert_eq!(mapped[0].len(), 2);
    assert_eq!(mapped[0][0].len(), 2);
    assert_eq!(mapped[0][1].len(), 2);
    assert!(mapped[0][0].join("").contains("line1"));
    assert!(mapped[0][0].join("").contains("single"));
}

#[test]
fn test_map_data_with_repeated_newlines() {
    let rows = vec![
        vec!["Column 1".to_string(), "Column 2".to_string()],
        vec!["Normal".to_string(), "\n".repeat(10)],
    ];
    let config = TableConfig::default();
    let row_heights = calculate_row_heights(&rows, &config);
    let mapped = map_data_using_row_heights(&rows, &row_heights, &config);
    assert_eq!(row_heights[1], 11, "Second row should have height 11");
    assert_eq!(mapped.len(), 2);
    assert_eq!(mapped[1].len(), 11);
    for (sub_row_idx, sub_row) in mapped[1].iter().enumerate() {
        assert_eq!(sub_row.len(), 2, "Each sub-row should have 2 cells");
        if sub_row_idx == 0 {
            assert_eq!(sub_row[0], "Normal");
        } else {
            assert_eq!(sub_row[0], "");
        }
        assert_eq!(sub_row[1], "");
    }
}

#[test]
fn test_map_data_with_realistic_multiline() {
    let rows = vec![
        vec!["ID".to_string(), "Status".to_string()],
        vec!["6".to_string(), format!("Webcam\n{}\n✓ Active", "\n".repeat(8))],
    ];
    let config = TableConfig::default();
    let row_heights = calculate_row_heights(&rows, &config);
    let mapped = map_data_using_row_heights(&rows, &row_heights, &config);
    assert_eq!(row_heights[1], 11);
    let second_row = &mapped[1];
    assert_eq!(second_row[0][1], "Webcam");
    assert_eq!(second_row[10][1], "✓ Active");
    for i in 1..10 {
        assert_eq!(second_row[i][1], "");
    }
}

#[test]
fn test_align_cell() {
    let mut config = ColumnConfig::default();
    config.width = 10;
    config.alignment = Alignment::Center;
    config.padding_left = 1;
    config.padding_right = 1;
    let result = align_cell("test", &config);
    assert_eq!(result.len(), 8);
}

#[test]
fn test_pad_cell() {
    let mut config = ColumnConfig::default();
    config.padding_left = 2;
    config.padding_right = 1;
    let result = pad_cell("test", &config);
    assert_eq!(result, "  test ");
}

#[test]
fn test_truncate_cell() {
    let mut config = ColumnConfig::default();
    config.truncate = 5;
    let result = truncate_cell("this is a long text", &config);
    assert_eq!(result, "th...");
}

#[test]
fn test_align_column_vertically() {
    let column_data = vec!["line1".to_string(), "line2".to_string()];
    let top_aligned = align_column_vertically(&column_data, 4, VerticalAlignment::Top);
    assert_eq!(top_aligned, vec!["line1", "line2", "", ""]);
    let bottom_aligned = align_column_vertically(&column_data, 4, VerticalAlignment::Bottom);
    assert_eq!(bottom_aligned, vec!["", "", "line1", "line2"]);
    let middle_aligned = align_column_vertically(&column_data, 4, VerticalAlignment::Middle);
    assert_eq!(middle_aligned, vec!["", "line1", "line2", ""]);
}

#[test]
fn test_draw_row() {
    let row = vec!["hello".to_string(), "world".to_string()];
    let column_widths = vec![7, 7];
    let border = BorderConfig::default();
    let result = draw_row(&row, &column_widths, &border);
    assert!(result.contains("hello"));
    assert!(result.contains("world"));
    assert!(result.contains("│"));
}

#[test]
fn test_draw_border_line() {
    let column_widths = vec![5, 5];
    let border = BorderConfig::default();
    let top_border = draw_border_line(&column_widths, &border, BorderType::Top);
    assert!(top_border.contains("┌"));
    assert!(top_border.contains("┐"));
    assert!(top_border.contains("─"));
    assert!(top_border.contains("┬"));
    let bottom_border = draw_border_line(&column_widths, &border, BorderType::Bottom);
    assert!(bottom_border.contains("└"));
    assert!(bottom_border.contains("┘"));
    assert!(bottom_border.contains("┴"));
}

#[test]
fn test_draw_table_basic() {
    let rows = vec![vec!["a".to_string(), "b".to_string()], vec!["c".to_string(), "d".to_string()]];
    let config = TableConfig::default();
    let result = draw_table(&rows, &config);
    assert!(result.contains("a"));
    assert!(result.contains("b"));
    assert!(result.contains("c"));
    assert!(result.contains("d"));
    assert!(result.contains("┌"));
    assert!(result.contains("└"));
}

#[test]
fn test_draw_table_empty() {
    let rows: Vec<Vec<String>> = vec![];
    let config = TableConfig::default();
    let result = draw_table(&rows, &config);
    assert_eq!(result, "");
}

fn span(col: usize, row: usize, col_span: Option<usize>, row_span: Option<usize>) -> SpanningCellConfig {
    SpanningCellConfig {
        col,
        row,
        col_span,
        row_span,
        alignment: None,
        vertical_alignment: None,
        padding_left: None,
        padding_right: None,
        truncate: None,
        wrap_word: None,
    }
}

#[test]
fn test_validate_column_config() {
    let mut config = ColumnConfig::default();
    config.width = 10;
    config.padding_left = 2;
    config.padding_right = 2;
    assert!(validate_column_config(&config).is_ok());
    config.width = 3;
    assert!(validate_column_config(&config).is_err());
}

#[test]
fn test_validate_spanning_cell_config() {
    let config = span(0, 0, Some(2), Some(2));
    assert!(validate_spanning_cell_config(&config).is_ok());
    let invalid_config = span(0, 0, Some(0), Some(2));
    assert!(validate_spanning_cell_config(&invalid_config).is_err());
}

#[test]
fn test_spanning_cells_overlap() {
    let cell1 = span(0, 0, Some(2), Some(2));
    let cell2 = span(1, 1, Some(2), Some(2));
    assert!(spanning_cells_overlap(&cell1, &cell2));
    let cell3 = span(3, 3, Some(2), Some(2));
    assert!(!spanning_cells_overlap(&cell1, &cell3));
}

#[test]
fn draw_row_joins_cells_with_the_body_join() {
    let row = vec!["a".to_string(), "b".to_string()];
    let result = draw_row(&row, &[1, 1], &BorderConfig::default());
    assert_eq!(result, "│a│b│");
}

#[test]
fn draw_border_line_repeats_the_body_per_width() {
    let line = draw_border_line(&[2, 1], &BorderConfig::default(), BorderType::Top);
    assert_eq!(line, "┌──┬─┐");
}
