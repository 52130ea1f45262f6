use ascii_ansi_table::alignment::{Alignment, ColumnConfig};
use ascii_ansi_table::border::BorderChars;
use ascii_ansi_table::newline::{calculate_newline_column_widths, render_table_with_newlines, split_lines};
use ascii_ansi_table::padding::Padding;
use ascii_ansi_table::renderer::RenderOptions;
use ascii_ansi_table::table_data::TableData;

#[test]
fn test_split_lines() {
    assert_eq!(split_lines("hello"), vec!["hello"]);
    assert_eq!(split_lines("hello\nworld"), vec!["hello", "world"]);
    assert_eq!(split_lines("line1\nline2\nline3"), vec!["line1", "line2", "line3"]);
    assert_eq!(split_lines(""), vec![""]);
}

#[test]
fn test_multi_line_cell_alignment() {
    let data = TableData::new(vec![vec!["Multi\nLine\nCell".to_string()]]);

    let column_configs = vec![ColumnConfig::default().with_width(10).with_alignment(Alignment::Center)];

    let border = BorderChars::default();
    let options = RenderOptions::default();
    let result = render_table_with_newlines(&data, &border, &options, &column_configs).unwrap();

    assert!(result.contains("Multi"));
    assert!(result.contains("Line"));
    assert!(result.contains("Cell"));

    let content_lines: Vec<&str> =
        result.lines().filter(|line| line.starts_with("│") && !line.contains("─")).collect();
    assert_eq!(content_lines.len(), 3);
}

#[test]
fn test_empty_lines_in_cells() {
    let data = TableData::new(vec![vec!["Line 1\n\nLine 3".to_string()]]);

    let column_configs = vec![ColumnConfig::default().with_width(8)];

    let border = BorderChars::default();
    let options = RenderOptions::default();
    let result = render_table_with_newlines(&data, &border, &options, &column_configs).unwrap();

    assert!(result.contains("Line 1"));
    assert!(result.contains("Line 3"));

    let content_lines: Vec<&str> =
        result.lines().filter(|line| line.starts_with("│") && !line.contains("─")).collect();
    assert_eq!(content_lines.len(), 3);
}

#[test]
fn test_calculate_newline_column_widths() {
    let rows = vec![
        vec!["Short".to_string(), "Normal".to_string()],
        vec!["Very\nLong\nMulti-line".to_string(), "Single".to_string()],
    ];

    let widths = calculate_newline_column_widths(&rows);
    assert_eq!(widths, vec![10, 6]);
}

#[test]
fn test_padding_with_newlines() {
    let data = TableData::new(vec![vec!["A\nB".to_string()]]);

    let column_configs = vec![ColumnConfig::default().with_width(4).with_padding(Padding::new(2, 1))];

    let border = BorderChars::default();
    let options = RenderOptions::default();
    let result = render_table_with_newlines(&data, &border, &options, &column_configs).unwrap();

    assert!(result.contains("A"));
    assert!(result.contains("B"));

    let content_lines: Vec<&str> =
        result.lines().filter(|line| line.starts_with("│") && !line.contains("─")).collect();
    assert_eq!(content_lines.len(), 2);
}

#[test]
fn newline_table_exact_text() {
    let data = TableData::new(vec![vec!["a\nbb".to_string(), "c".to_string()]]);
    let result =
        render_table_with_newlines(&data, &BorderChars::default(), &RenderOptions::default(), &[]).unwrap();
    assert_eq!(result, "┌────┬───┐\n│ a  │ c │\n│ bb │   │\n└────┴───┘\n");
}

#[test]
fn newline_rows_of_other_lengths_refused() {
    let data = TableData::new(vec![vec!["a".to_string(), "b".to_string()], vec!["c".to_string()]]);
    let result = render_table_with_newlines(&data, &BorderChars::default(), &RenderOptions::default(), &[]);
    assert_eq!(result.unwrap_err(), "Row 1 has 1 columns, expected 2 columns");
}

#[test]
fn test_render_with_newlines() {
    let data = TableData::new(vec![
        vec!["Name".to_string(), "Description".to_string()],
        vec!["Alice".to_string(), "First line\nSecond line".to_string()],
        vec!["Bob".to_string(), "Single line".to_string()],
    ]);
    let column_configs = vec![ColumnConfig::default().with_width(8), ColumnConfig::default().with_width(12)];
    let border = BorderChars::default();
    let options = RenderOptions::default();
    let result = render_table_with_newlines(&data, &border, &options, &column_configs).unwrap();
    assert!(result.contains("Name"));
    assert!(result.contains("Alice"));
    assert!(result.contains("First line"));
    assert!(result.contains("Second line"));
    assert!(result.contains("Bob"));
    assert!(result.contains("Single line"));
    let lines: Vec<&str> = result.lines().collect();
    assert!(lines.len() > 6);
}
