use ascii_ansi_table::alignment::{Alignment, ColumnConfig};
use ascii_ansi_table::border::BorderChars;
use ascii_ansi_table::column_arrays::patterns;
use ascii_ansi_table::column_arrays::{render_table_with_column_array, ColumnArrayBuilder, ColumnConfigArray};
use ascii_ansi_table::padding::Padding;
use ascii_ansi_table::renderer::RenderOptions;
use ascii_ansi_table::table_data::TableData;

#[test]
fn test_column_config_array_creation() {
    let configs = vec![ColumnConfig::new().with_width(10), ColumnConfig::new().with_width(15)];
    let array = ColumnConfigArray::new(configs.clone());
    assert_eq!(array.configs.len(), 2);
    assert!(!array.repeat_pattern);
    assert_eq!(array.get_config(0).width, Some(10));
    assert_eq!(array.get_config(1).width, Some(15));
    let default_config = array.get_config(2);
    assert_eq!(default_config.width, None);
}

#[test]
fn test_repeat_pattern() {
    let configs = vec![
        ColumnConfig::new().with_width(10).with_alignment(Alignment::Left),
        ColumnConfig::new().with_width(15).with_alignment(Alignment::Right),
    ];
    let array = ColumnConfigArray::new(configs).with_repeat_pattern();
    assert_eq!(array.get_config(0).alignment, Alignment::Left);
    assert_eq!(array.get_config(1).alignment, Alignment::Right);
    assert_eq!(array.get_config(2).alignment, Alignment::Left);
    assert_eq!(array.get_config(3).alignment, Alignment::Right);
}

#[test]
fn test_generate_configs() {
    let configs = vec![ColumnConfig::new().with_width(10), ColumnConfig::new().with_width(15)];
    let array = ColumnConfigArray::new(configs).with_repeat_pattern();
    let generated = array.generate_configs(5);
    assert_eq!(generated.len(), 5);
    assert_eq!(generated[0].width, Some(10));
    assert_eq!(generated[1].width, Some(15));
    assert_eq!(generated[2].width, Some(10));
    assert_eq!(generated[3].width, Some(15));
    assert_eq!(generated[4].width, Some(10));
}

#[test]
fn test_column_array_builder() {
    let array = ColumnArrayBuilder::new().left_column(10).center_column(15).right_column(20).build();
    assert_eq!(array.configs.len(), 3);
    assert_eq!(array.get_config(0).alignment, Alignment::Left);
    assert_eq!(array.get_config(1).alignment, Alignment::Center);
    assert_eq!(array.get_config(2).alignment, Alignment::Right);
}

#[test]
fn test_alternating_alignment() {
    let widths = [10, 15, 20, 25];
    let array = ColumnArrayBuilder::new().alternating_alignment(&widths).build();
    assert_eq!(array.configs.len(), 4);
    assert_eq!(array.get_config(0).alignment, Alignment::Left);
    assert_eq!(array.get_config(1).alignment, Alignment::Right);
    assert_eq!(array.get_config(2).alignment, Alignment::Left);
    assert_eq!(array.get_config(3).alignment, Alignment::Right);
}

#[test]
fn test_render_with_column_array() {
    let data = TableData::new(vec![
        vec!["Left".to_string(), "Center".to_string(), "Right".to_string()],
        vec!["A".to_string(), "B".to_string(), "C".to_string()],
    ]);
    let array = ColumnArrayBuilder::new().left_column(8).center_column(8).right_column(8).build();
    let border = BorderChars::default();
    let options = RenderOptions::default();
    let result = render_table_with_column_array(&data, &border, &options, &array).unwrap();
    assert!(result.contains("Left"));
    assert!(result.contains("Center"));
    assert!(result.contains("Right"));
    assert!(result.contains("A"));
    assert!(result.contains("B"));
    assert!(result.contains("C"));
}

#[test]
fn test_financial_pattern() {
    let widths = [15, 10, 10, 12];
    let array = patterns::financial_columns(&widths);
    assert_eq!(array.configs.len(), 4);
    assert_eq!(array.get_config(0).alignment, Alignment::Left);
    assert_eq!(array.get_config(1).alignment, Alignment::Right);
    assert_eq!(array.get_config(2).alignment, Alignment::Right);
    assert_eq!(array.get_config(3).alignment, Alignment::Right);
}

#[test]
fn test_mixed_content_pattern() {
    let widths = [10, 15, 12, 18];
    let array = patterns::mixed_content(&widths);
    assert_eq!(array.configs.len(), 4);
    assert_eq!(array.get_config(0).alignment, Alignment::Left);
    assert_eq!(array.get_config(1).alignment, Alignment::Right);
    assert_eq!(array.get_config(2).alignment, Alignment::Left);
    assert_eq!(array.get_config(3).alignment, Alignment::Right);
}

#[test]
fn test_centered_headers_pattern() {
    let array = patterns::centered_headers(12, 3);
    assert_eq!(array.configs.len(), 3);
    for i in 0..3 {
        assert_eq!(array.get_config(i).width, Some(12));
        assert_eq!(array.get_config(i).alignment, Alignment::Center);
    }
}

#[test]
fn test_repeating_pattern() {
    let pattern = vec![ColumnConfig::new().with_width(10), ColumnConfig::new().with_width(20)];
    let array = patterns::repeating_pattern(pattern);
    assert!(array.repeat_pattern);
    assert_eq!(array.get_config(0).width, Some(10));
    assert_eq!(array.get_config(1).width, Some(20));
    assert_eq!(array.get_config(2).width, Some(10));
    assert_eq!(array.get_config(3).width, Some(20));
}

#[test]
fn test_empty_config_array() {
    let array = ColumnConfigArray::new(vec![]);
    let config = array.get_config(0);
    assert_eq!(config.width, None);
    assert_eq!(config.alignment, Alignment::Left);
}

#[test]
fn test_custom_default_config() {
    let custom_default = ColumnConfig::new()
        .with_width(25)
        .with_alignment(Alignment::Center)
        .with_padding(Padding::symmetric(2));
    let array = ColumnConfigArray::new(vec![]).with_default_config(custom_default);
    let config = array.get_config(0);
    assert_eq!(config.width, Some(25));
    assert_eq!(config.alignment, Alignment::Center);
    assert_eq!(config.padding.left, 2);
    assert_eq!(config.padding.right, 2);
}

#[test]
fn render_with_column_array_draws_exact_lines() {
    let data = TableData::new(vec![vec!["ab".to_string(), "c".to_string()]]);
    let array = ColumnArrayBuilder::new().left_column(3).right_column(3).build();
    let result =
        render_table_with_column_array(&data, &BorderChars::ascii(), &RenderOptions::default(), &array).unwrap();
    assert_eq!(result, "+-----+-----+\n| ab  |   c |\n+-----+-----+\n");
}
