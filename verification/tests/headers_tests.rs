use ascii_ansi_table::alignment::{Alignment, ColumnConfig};
use ascii_ansi_table::border::BorderChars;
use ascii_ansi_table::headers::{default_header_config, render_table_with_headers, HeaderConfig};
use ascii_ansi_table::padding::Padding;
use ascii_ansi_table::renderer::RenderOptions;
use ascii_ansi_table::table_data::TableData;

#[test]
fn test_header_config_creation() {
    let config = HeaderConfig::new();
    assert!(!config.has_header);
    assert_eq!(config.header_row_count, 1);
    let with_header = HeaderConfig::new().with_header();
    assert!(with_header.has_header);
    let multi_header = HeaderConfig::new().with_header_rows(3);
    assert!(multi_header.has_header);
    assert_eq!(multi_header.header_row_count, 3);
}

#[test]
fn test_render_with_headers() {
    let data = TableData::new(vec![
        vec!["Name".to_string(), "Age".to_string(), "City".to_string()],
        vec!["Alice".to_string(), "30".to_string(), "New York".to_string()],
        vec!["Bob".to_string(), "25".to_string(), "London".to_string()],
    ]);
    let column_configs = vec![
        ColumnConfig::default().with_width(8),
        ColumnConfig::default().with_width(5),
        ColumnConfig::default().with_width(10),
    ];
    let header_config = HeaderConfig::new().with_header().with_header_column_configs(vec![
        ColumnConfig::default().with_width(8).with_alignment(Alignment::Center),
        ColumnConfig::default().with_width(5).with_alignment(Alignment::Center),
        ColumnConfig::default().with_width(10).with_alignment(Alignment::Center),
    ]);
    let border = BorderChars::default();
    let options = RenderOptions::default();
    let result = render_table_with_headers(&data, &border, &options, &column_configs, &header_config).unwrap();
    assert!(result.contains("Name"));
    assert!(result.contains("Alice"));
    assert!(result.contains("Bob"));
    let lines: Vec<&str> = result.lines().collect();
    assert!(lines.len() >= 4);
}

#[test]
fn test_multi_row_headers() {
    let data = TableData::new(vec![
        vec!["Main Header".to_string(), "".to_string()],
        vec!["Sub A".to_string(), "Sub B".to_string()],
        vec!["Data 1".to_string(), "Data 2".to_string()],
        vec!["Data 3".to_string(), "Data 4".to_string()],
    ]);
    let column_configs = vec![ColumnConfig::default().with_width(12), ColumnConfig::default().with_width(12)];
    let header_config = HeaderConfig::new().with_header_rows(2).with_header_column_configs(vec![
        ColumnConfig::default().with_width(12).with_alignment(Alignment::Center),
        ColumnConfig::default().with_width(12).with_alignment(Alignment::Center),
    ]);
    let border = BorderChars::default();
    let options = RenderOptions::default();
    let result = render_table_with_headers(&data, &border, &options, &column_configs, &header_config).unwrap();
    assert!(result.contains("Main Header"));
    assert!(result.contains("Sub A"));
    assert!(result.contains("Sub B"));
    assert!(result.contains("Data 1"));
    assert!(result.contains("Data 3"));
    let content_lines: Vec<&str> = result.lines().filter(|line| line.starts_with("│")).collect();
    assert!(content_lines.len() >= 4);
}

#[test]
fn test_no_headers() {
    let data = TableData::new(vec![
        vec!["Row 1".to_string(), "Col 1".to_string()],
        vec!["Row 2".to_string(), "Col 2".to_string()],
    ]);
    let column_configs = vec![ColumnConfig::default().with_width(8), ColumnConfig::default().with_width(8)];
    let header_config = HeaderConfig::new();
    let border = BorderChars::default();
    let options = RenderOptions::default();
    let result = render_table_with_headers(&data, &border, &options, &column_configs, &header_config).unwrap();
    assert!(result.contains("Row 1"));
    assert!(result.contains("Row 2"));
    let content_lines: Vec<&str> = result.lines().filter(|line| line.starts_with("│")).collect();
    assert_eq!(content_lines.len(), 2);
}

#[test]
fn test_default_header_config() {
    let config = default_header_config();
    assert!(config.has_header);
    assert_eq!(config.header_row_count, 1);
    assert!(!config.header_column_configs.is_empty());
    assert_eq!(config.header_column_configs[0].alignment, Alignment::Center);
}

#[test]
fn test_header_with_padding() {
    let data = TableData::new(vec![
        vec!["H1".to_string(), "H2".to_string()],
        vec!["D1".to_string(), "D2".to_string()],
    ]);
    let column_configs = vec![ColumnConfig::default().with_width(8), ColumnConfig::default().with_width(8)];
    let header_config = HeaderConfig::new().with_header().with_header_column_configs(vec![
        ColumnConfig::default().with_width(8).with_padding(Padding::new(3, 3)).with_alignment(Alignment::Center),
        ColumnConfig::default().with_width(8).with_padding(Padding::new(2, 2)).with_alignment(Alignment::Center),
    ]);
    let border = BorderChars::default();
    let options = RenderOptions::default();
    let result = render_table_with_headers(&data, &border, &options, &column_configs, &header_config).unwrap();
    assert!(result.contains("H1"));
    assert!(result.contains("H2"));
    assert!(result.contains("D1"));
    assert!(result.contains("D2"));
}

#[test]
fn header_separator_line_uses_the_separator_characters() {
    let data = TableData::new(vec![vec!["a".to_string()], vec!["b".to_string()]]);
    let mut sep = BorderChars::ascii();
    sep.horizontal = '=';
    let header_config = HeaderConfig::new().with_header().with_separator_border(sep);
    let result =
        render_table_with_headers(&data, &BorderChars::ascii(), &RenderOptions::default(), &[], &header_config).unwrap();
    assert_eq!(result, "+---+\n| a |\n├===┤\n| b |\n+---+\n");
}
